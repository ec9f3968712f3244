//! A single node of a peer-to-peer overlay: endpoint-derived identities, a
//! bounded membership table, bootstrap parsing, routing, and the
//! request/response state machine that serves one connection.

use crate::identity::{PeerId, PeerIdView};
use vstd::prelude::*;
use vstd::std_specs::convert::FromSpecImpl;
use vstd::string::StringExecFns;

pub mod addr;
pub mod connection;
pub mod identity;
pub mod peer;
pub mod protocol;
pub mod store;
pub mod text;
pub mod transport;
pub mod util;

verus! {

/// Maximum number of peers a node keeps in its membership table.
pub const MAX_PEERS: u8 = 32;

/// Name of the local file that lists the bootstrap hosts, one per line.
pub const BOOTSTRAP_FILE: &'static str = "bootstrap.txt";

/// Some general error that happened on the network.
#[derive(Debug)]
pub enum NetworkError {
    /// An I/O or codec failure, as a message for people.
    Fail(String),
    /// The destination is not in the membership table.
    NoRoute(PeerId),
    /// The destination is known but does not answer.
    DeadPeer(PeerId),
}

/// What a `NetworkError` holds.
pub ghost enum NetworkErrorView {
    Fail(Seq<char>),
    NoRoute(PeerIdView),
    DeadPeer(PeerIdView),
}

/// The text that `{:?}` formatting gives for a string: quoted and escaped.
pub uninterp spec fn debug_quoted(text: Seq<char>) -> Seq<char>;

/// Calls std's `Debug` formatting of `str`, through `format!`. Trusted: the
/// result is a function of the text alone.
#[verifier::external_body]
fn quote_debug(text: &str) -> (quoted: String)
    ensures
        quoted@ == debug_quoted(text@),
{
    format!("{:?}", text)
}

impl NetworkErrorView {
    /// The message shown to people.
    pub open spec fn message(self) -> Seq<char> {
        match self {
            NetworkErrorView::Fail(msg) => msg,
            NetworkErrorView::NoRoute(id) => "could not route to "@ + id.id,
            NetworkErrorView::DeadPeer(id) => "Peer "@ + id.id + " is no longer alive"@,
        }
    }

    /// The variant's name with its payload in brackets; a `Fail` message is
    /// quoted and escaped.
    pub open spec fn debug_text(self) -> Seq<char> {
        match self {
            NetworkErrorView::Fail(msg) => fail_text(debug_quoted(msg)),
            NetworkErrorView::NoRoute(id) => "NoRoute("@ + id.id + ")"@,
            NetworkErrorView::DeadPeer(id) => "DeadPeer("@ + id.id + ")"@,
        }
    }
}

/// The debug text of a `Fail` whose quoted message is `quoted`.
pub open spec fn fail_text(quoted: Seq<char>) -> Seq<char> {
    "Fail("@ + quoted + ")"@
}

/// The debug text of a `Fail`, given its message already quoted.
pub fn fail_debug_text(quoted: &str) -> (text: String)
    ensures
        text@ == fail_text(quoted@),
{
    let mut text = String::new();
    text.append("Fail(");
    text.append(quoted);
    text.append(")");
    assert(text@ =~= fail_text(quoted@));
    text
}

impl View for NetworkError {
    type V = NetworkErrorView;

    open spec fn view(&self) -> NetworkErrorView {
        match self {
            NetworkError::Fail(msg) => NetworkErrorView::Fail(msg@),
            NetworkError::NoRoute(id) => NetworkErrorView::NoRoute(id@),
            NetworkError::DeadPeer(id) => NetworkErrorView::DeadPeer(id@),
        }
    }
}

impl Clone for NetworkError {
    fn clone(&self) -> (copy: Self)
        ensures
            copy@ == self@,
    {
        match self {
            NetworkError::Fail(msg) => NetworkError::Fail(msg.clone()),
            NetworkError::NoRoute(id) => NetworkError::NoRoute(id.clone()),
            NetworkError::DeadPeer(id) => NetworkError::DeadPeer(id.clone()),
        }
    }
}

impl NetworkError {
    /// The message shown to people.
    pub fn message(&self) -> (text: String)
        ensures
            text@ == self@.message(),
    {
        match self {
            NetworkError::Fail(msg) => msg.clone(),
            NetworkError::NoRoute(id) => {
                let mut text = String::new();
                text.append("could not route to ");
                text.append(id.to_string().as_str());
                assert(text@ =~= self@.message());
                text
            },
            NetworkError::DeadPeer(id) => {
                let mut text = String::new();
                text.append("Peer ");
                text.append(id.to_string().as_str());
                text.append(" is no longer alive");
                assert(text@ =~= self@.message());
                text
            },
        }
    }

    /// The variant's name with its payload in brackets.
    pub fn debug_text(&self) -> (text: String)
        ensures
            text@ == self@.debug_text(),
    {
        match self {
            NetworkError::Fail(msg) => {
                let quoted = quote_debug(msg.as_str());
                fail_debug_text(quoted.as_str())
            },
            NetworkError::NoRoute(id) => {
                let mut text = String::new();
                text.append("NoRoute(");
                text.append(id.to_string().as_str());
                text.append(")");
                assert(text@ =~= self@.debug_text());
                text
            },
            NetworkError::DeadPeer(id) => {
                let mut text = String::new();
                text.append("DeadPeer(");
                text.append(id.to_string().as_str());
                text.append(")");
                assert(text@ =~= self@.debug_text());
                text
            },
        }
    }
}

/// The general crate error.
#[derive(Debug)]
pub enum Error {
    /// No address could be found for this node.
    NoIp,
    /// Only an IPv6 address was found; the payload is its text.
    Ipv6Disabled(String),
    /// An I/O failure; the payload is its debug text.
    IoError(String),
    /// A codec failure; the payload is its debug text.
    BinaryError(String),
    /// A failure on the network.
    NetworkError(NetworkError),
}

/// What an `Error` holds.
pub ghost enum ErrorView {
    NoIp,
    Ipv6Disabled(Seq<char>),
    IoError(Seq<char>),
    BinaryError(Seq<char>),
    NetworkError(NetworkErrorView),
}

impl ErrorView {
    /// The message shown to people.
    pub open spec fn message(self) -> Seq<char> {
        match self {
            ErrorView::NoIp => "public or private ip cannot be found for this peer"@,
            ErrorView::Ipv6Disabled(ip) => "ipv6 ip "@ + ip + " found, but ipv6 is disabled"@,
            ErrorView::IoError(text) => text,
            ErrorView::BinaryError(text) => text,
            ErrorView::NetworkError(e) => e.debug_text(),
        }
    }
}

impl View for Error {
    type V = ErrorView;

    open spec fn view(&self) -> ErrorView {
        match self {
            Error::NoIp => ErrorView::NoIp,
            Error::Ipv6Disabled(ip) => ErrorView::Ipv6Disabled(ip@),
            Error::IoError(text) => ErrorView::IoError(text@),
            Error::BinaryError(text) => ErrorView::BinaryError(text@),
            Error::NetworkError(e) => ErrorView::NetworkError(e@),
        }
    }
}

impl Error {
    /// The message shown to people.
    pub fn message(&self) -> (text: String)
        ensures
            text@ == self@.message(),
    {
        match self {
            Error::NoIp => String::from_str("public or private ip cannot be found for this peer"),
            Error::Ipv6Disabled(ip) => {
                let mut text = String::new();
                text.append("ipv6 ip ");
                text.append(ip.as_str());
                text.append(" found, but ipv6 is disabled");
                assert(text@ =~= self@.message());
                text
            },
            Error::IoError(text) => text.clone(),
            Error::BinaryError(text) => text.clone(),
            Error::NetworkError(e) => e.debug_text(),
        }
    }
}

impl From<NetworkError> for Error {
    fn from(err: NetworkError) -> (e: Error) {
        Error::NetworkError(err)
    }
}

impl FromSpecImpl<NetworkError> for Error {
    open spec fn obeys_from_spec() -> bool {
        true
    }

    open spec fn from_spec(err: NetworkError) -> Error {
        Error::NetworkError(err)
    }
}

} // verus!
