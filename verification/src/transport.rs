//! What goes out on the wire: where a request is dialed, and the bound on
//! the size of a request. One write carries one message; nothing frames it.

use crate::addr::socket_text;
use crate::identity::{PeerId, PeerIdView};
use crate::protocol::{NetworkResult, Request, RequestView, MAX_TRANSFER_SIZE};
use crate::{NetworkError, NetworkErrorView};
use vstd::prelude::*;
use vstd::string::StringExecFns;

verus! {

/// A request ready to be sent: to whom, at which socket, and what.
#[derive(Debug)]
pub struct Outbound {
    pub to: PeerId,
    pub address: String,
    pub request: Request,
}

/// What an `Outbound` holds.
pub ghost struct OutboundView {
    pub to: PeerIdView,
    pub address: Seq<char>,
    pub request: RequestView,
}

impl View for Outbound {
    type V = OutboundView;

    open spec fn view(&self) -> OutboundView {
        OutboundView { to: self.to@, address: self.address@, request: self.request@ }
    }
}

/// The views of a sequence of outbound requests, in order.
pub open spec fn outbound_views(out: Seq<Outbound>) -> Seq<OutboundView> {
    Seq::new(out.len(), |i: int| out[i]@)
}

/// The request `request` addressed to `to`: it is dialed at the socket of
/// the identity.
pub open spec fn addressed(to: PeerIdView, request: RequestView) -> OutboundView {
    OutboundView { to, address: socket_text(to.ip, to.port), request }
}

/// Address a request to a peer. `to_peer` should come out of the router.
pub fn send_request(to_peer: &PeerId, req: Request) -> (out: Outbound)
    ensures
        out@ == addressed(to_peer@, req@),
{
    Outbound { to: to_peer.clone(), address: to_peer.as_socket(), request: req }
}

/// The failure reported for a request that does not fit in one transfer.
pub open spec fn oversized() -> NetworkErrorView {
    NetworkErrorView::Fail("request exceeds the maximum transfer size"@)
}

/// Hold an encoded request of `len` bytes to the transfer bound: it goes
/// out only if it fits in a single read by the receiver.
pub fn check_payload(len: usize) -> (r: NetworkResult<usize>)
    ensures
        len <= MAX_TRANSFER_SIZE ==> r == Ok::<usize, NetworkError>(len),
        len > MAX_TRANSFER_SIZE ==> r.is_err() && r.unwrap_err()@ == oversized(),
{
    if len <= MAX_TRANSFER_SIZE {
        Ok(len)
    } else {
        Err(NetworkError::Fail(String::from_str("request exceeds the maximum transfer size")))
    }
}

} // verus!
