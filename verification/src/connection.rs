//! One inbound connection, from accept to close, as a state machine. The
//! caller owns the socket: it performs the action each step asks for and
//! reports what happened as the next event. The node is touched in the
//! `Handle` state only, so a lock around it need never be held across I/O.

use crate::peer::{failure, Peer, PeerView};
use crate::protocol::{
    dispatch, handler_for, Handler, HandlerView, Request, RequestView, Response, ResponseView,
    MAX_TRANSFER_SIZE,
};
use crate::store::Timestamp;
use crate::NetworkError;
use vstd::prelude::*;

verus! {

/// Where a connection stands.
#[derive(Debug)]
pub enum ConnState {
    /// Accepted; nothing read yet.
    Accepted,
    /// Waiting for the single read of the request.
    Read,
    /// Waiting for the bytes read to be decoded.
    Decode,
    /// A request was decoded and awaits its handler.
    Dispatch(Request),
    /// A handler was picked and is about to run.
    Handle(Handler),
    /// Waiting for the single write of the response.
    Respond,
    /// Finished. Nothing more happens on this connection.
    Closed,
}

/// What a `ConnState` holds.
pub ghost enum ConnStateView {
    Accepted,
    Read,
    Decode,
    Dispatch(RequestView),
    Handle(HandlerView),
    Respond,
    Closed,
}

impl View for ConnState {
    type V = ConnStateView;

    open spec fn view(&self) -> ConnStateView {
        match self {
            ConnState::Accepted => ConnStateView::Accepted,
            ConnState::Read => ConnStateView::Read,
            ConnState::Decode => ConnStateView::Decode,
            ConnState::Dispatch(request) => ConnStateView::Dispatch(request@),
            ConnState::Handle(handler) => ConnStateView::Handle(handler@),
            ConnState::Respond => ConnStateView::Respond,
            ConnState::Closed => ConnStateView::Closed,
        }
    }
}

/// What the caller reports back after an action.
#[derive(Debug)]
pub enum ConnEvent {
    /// The connection was accepted.
    Opened,
    /// The read returned this many bytes.
    Bytes(usize),
    /// The read failed, with the reason.
    ReadFailed(String),
    /// The bytes decoded to this request.
    Decoded(Request),
    /// The bytes are no request, with the reason.
    DecodeFailed(String),
    /// Nothing happened outside; go on.
    Proceed,
    /// The write put this many bytes on the wire.
    Written(usize),
    /// The write failed, with the reason.
    WriteFailed(String),
}

/// What a `ConnEvent` holds.
pub ghost enum ConnEventView {
    Opened,
    Bytes(usize),
    ReadFailed(Seq<char>),
    Decoded(RequestView),
    DecodeFailed(Seq<char>),
    Proceed,
    Written(usize),
    WriteFailed(Seq<char>),
}

impl View for ConnEvent {
    type V = ConnEventView;

    open spec fn view(&self) -> ConnEventView {
        match self {
            ConnEvent::Opened => ConnEventView::Opened,
            ConnEvent::Bytes(n) => ConnEventView::Bytes(*n),
            ConnEvent::ReadFailed(why) => ConnEventView::ReadFailed(why@),
            ConnEvent::Decoded(request) => ConnEventView::Decoded(request@),
            ConnEvent::DecodeFailed(why) => ConnEventView::DecodeFailed(why@),
            ConnEvent::Proceed => ConnEventView::Proceed,
            ConnEvent::Written(n) => ConnEventView::Written(*n),
            ConnEvent::WriteFailed(why) => ConnEventView::WriteFailed(why@),
        }
    }
}

/// What the caller is asked to do next.
#[derive(Debug)]
pub enum ConnAction {
    /// Read once, at most `limit` bytes.
    Read { limit: usize },
    /// Decode the first `len` bytes that were read into a request.
    Decode { len: usize },
    /// Nothing to do outside; report `Proceed`.
    Proceed,
    /// Encode this response and write it once.
    Write(Response),
    /// Drop the connection.
    Close,
}

/// What a `ConnAction` holds.
pub ghost enum ConnActionView {
    Read { limit: usize },
    Decode { len: usize },
    Proceed,
    Write(ResponseView),
    Close,
}

impl View for ConnAction {
    type V = ConnActionView;

    open spec fn view(&self) -> ConnActionView {
        match self {
            ConnAction::Read { limit } => ConnActionView::Read { limit: *limit },
            ConnAction::Decode { len } => ConnActionView::Decode { len: *len },
            ConnAction::Proceed => ConnActionView::Proceed,
            ConnAction::Write(response) => ConnActionView::Write(response@),
            ConnAction::Close => ConnActionView::Close,
        }
    }
}

/// How many steps a connection in this state has left at most.
pub open spec fn steps_left(state: ConnStateView) -> nat {
    match state {
        ConnStateView::Accepted => 6,
        ConnStateView::Read => 5,
        ConnStateView::Decode => 4,
        ConnStateView::Dispatch(_) => 3,
        ConnStateView::Handle(_) => 2,
        ConnStateView::Respond => 1,
        ConnStateView::Closed => 0,
    }
}

/// The state a connection moves to. An event that does not belong to the
/// state, a failed read or write, or a read beyond the transfer bound
/// closes the connection; bytes that are no request are answered with a
/// failure rather than dropped.
pub open spec fn next_state(state: ConnStateView, event: ConnEventView) -> ConnStateView {
    match (state, event) {
        (ConnStateView::Accepted, ConnEventView::Opened) => ConnStateView::Read,
        (ConnStateView::Read, ConnEventView::Bytes(n)) => if n <= MAX_TRANSFER_SIZE {
            ConnStateView::Decode
        } else {
            ConnStateView::Closed
        },
        (ConnStateView::Decode, ConnEventView::Decoded(request)) => ConnStateView::Dispatch(
            request,
        ),
        (ConnStateView::Decode, ConnEventView::DecodeFailed(_)) => ConnStateView::Respond,
        (ConnStateView::Dispatch(request), ConnEventView::Proceed) => ConnStateView::Handle(
            handler_for(request),
        ),
        (ConnStateView::Handle(_), ConnEventView::Proceed) => ConnStateView::Respond,
        _ => ConnStateView::Closed,
    }
}

/// The action a step asks of the caller.
pub open spec fn next_action(peer: PeerView, state: ConnStateView, event: ConnEventView)
    -> ConnActionView {
    match (state, event) {
        (ConnStateView::Accepted, ConnEventView::Opened) => ConnActionView::Read {
            limit: MAX_TRANSFER_SIZE,
        },
        (ConnStateView::Read, ConnEventView::Bytes(n)) => if n <= MAX_TRANSFER_SIZE {
            ConnActionView::Decode { len: n }
        } else {
            ConnActionView::Close
        },
        (ConnStateView::Decode, ConnEventView::Decoded(_)) => ConnActionView::Proceed,
        (ConnStateView::Decode, ConnEventView::DecodeFailed(why)) => ConnActionView::Write(
            failure(why),
        ),
        (ConnStateView::Dispatch(_), ConnEventView::Proceed) => ConnActionView::Proceed,
        (ConnStateView::Handle(handler), ConnEventView::Proceed) => ConnActionView::Write(
            peer.answer(handler),
        ),
        _ => ConnActionView::Close,
    }
}

/// The node after a step at time `now`: changed by a handler that runs,
/// and by nothing else.
pub open spec fn next_peer(
    peer: PeerView,
    state: ConnStateView,
    event: ConnEventView,
    now: Timestamp,
) -> PeerView {
    match (state, event) {
        (ConnStateView::Handle(handler), ConnEventView::Proceed) => peer.after(handler, now),
        _ => peer,
    }
}

/// Every step brings a connection closer to its end, and a closed
/// connection stays closed: no sequence of events keeps one alive for more
/// than six steps.
pub proof fn lemma_steps_decrease(state: ConnStateView, event: ConnEventView)
    ensures
        state != ConnStateView::Closed ==> steps_left(next_state(state, event)) < steps_left(
            state,
        ),
        state == ConnStateView::Closed ==> next_state(state, event) == ConnStateView::Closed,
{
}

/// Whether a step runs a handler: the only step that touches the node.
pub open spec fn runs_handler(state: ConnStateView, event: ConnEventView) -> bool {
    match (state, event) {
        (ConnStateView::Handle(_), ConnEventView::Proceed) => true,
        _ => false,
    }
}

impl Peer {
    /// One step that runs no handler: it reads nothing of the node and
    /// leaves it alone.
    fn pass(&self, state: ConnState, event: ConnEvent) -> (r: (ConnState, ConnAction))
        requires
            !runs_handler(state@, event@),
        ensures
            r.0@ == next_state(state@, event@),
            r.1@ == next_action(self@, state@, event@),
    {
        match (state, event) {
            (ConnState::Accepted, ConnEvent::Opened) => (
                ConnState::Read,
                ConnAction::Read { limit: MAX_TRANSFER_SIZE },
            ),
            (ConnState::Read, ConnEvent::Bytes(n)) => {
                if n <= MAX_TRANSFER_SIZE {
                    (ConnState::Decode, ConnAction::Decode { len: n })
                } else {
                    (ConnState::Closed, ConnAction::Close)
                }
            },
            (ConnState::Decode, ConnEvent::Decoded(request)) => (
                ConnState::Dispatch(request),
                ConnAction::Proceed,
            ),
            (ConnState::Decode, ConnEvent::DecodeFailed(why)) => (
                ConnState::Respond,
                ConnAction::Write(Response::Failure(NetworkError::Fail(why))),
            ),
            (ConnState::Dispatch(request), ConnEvent::Proceed) => (
                ConnState::Handle(dispatch(request)),
                ConnAction::Proceed,
            ),
            _ => (ConnState::Closed, ConnAction::Close),
        }
    }

    /// Handle one step of an incoming connection at time `now`: given
    /// where the connection stands and what just happened, move it on and
    /// say what to do next. Never fails: whatever goes wrong on one
    /// connection ends that connection and nothing else.
    pub fn handle_conn_at(&mut self, state: ConnState, event: ConnEvent, now: Timestamp) -> (r: (
        ConnState,
        ConnAction,
    ))
        requires
            old(self)@.wf(),
        ensures
            r.0@ == next_state(state@, event@),
            r.1@ == next_action(old(self)@, state@, event@),
            final(self)@ == next_peer(old(self)@, state@, event@, now),
            final(self)@.wf(),
    {
        match (state, event) {
            (ConnState::Handle(handler), ConnEvent::Proceed) => {
                let response = self.handle_at(handler, now);
                (ConnState::Respond, ConnAction::Write(response))
            },
            (state, event) => self.pass(state, event),
        }
    }

    /// Handle one step of an incoming connection. The clock is read only
    /// in the step that runs a join which refreshes a member.
    pub fn handle_conn(&mut self, state: ConnState, event: ConnEvent) -> (r: (
        ConnState,
        ConnAction,
    ))
        requires
            old(self)@.wf(),
        ensures
            r.0@ == next_state(state@, event@),
            r.1@ == next_action(old(self)@, state@, event@),
            exists|now: Timestamp| final(self)@ == next_peer(old(self)@, state@, event@, now),
            final(self)@.wf(),
    {
        match (state, event) {
            (ConnState::Handle(handler), ConnEvent::Proceed) => {
                let ghost running = handler@;
                let response = self.handle(handler);
                proof {
                    let at = choose|at: Timestamp| self@ == old(self)@.after(running, at);
                    assert(self@ == next_peer(old(self)@, state@, event@, at));
                }
                (ConnState::Respond, ConnAction::Write(response))
            },
            (state, event) => {
                assert(self@ == next_peer(
                    old(self)@,
                    state@,
                    event@,
                    Timestamp { secs: 0, nanos: 0 },
                ));
                self.pass(state, event)
            },
        }
    }
}

} // verus!
