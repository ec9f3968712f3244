//! Peer identities: an identifier derived from the endpoint a peer listens
//! on. The identifier is a hash of `ip:port` set in a fixed template, so it is
//! not a cryptographic identity: whoever knows an endpoint can name it.

use crate::addr::{
    append_dotted, append_socket, dotted, lemma_dotted_free_of, lemma_dotted_injective,
    socket_text, Ipv4Address,
};
use crate::text::{append_decimal, decimal, free_of, lemma_cut_unique, lemma_decimal_injective};
use crate::util::{hash_sha256, hex_chars, hex_digit, sha256_digest};
use vstd::prelude::*;
use vstd::std_specs::cmp::{PartialEqSpec, PartialEqSpecImpl};
use vstd::string::StringExecFns;
use vstd::utf8::encode_utf8;

verus! {

/// A key for a stored file.
#[derive(Debug)]
pub struct Key(String);

impl View for Key {
    type V = Seq<char>;

    closed spec fn view(&self) -> Seq<char> {
        self.0@
    }
}

impl Clone for Key {
    fn clone(&self) -> (copy: Self)
        ensures
            copy@ == self@,
    {
        Key(self.0.clone())
    }
}

impl Key {
    /// The key with the given name.
    pub fn new(name: String) -> (key: Self)
        ensures
            key@ == name@,
    {
        Key(name)
    }

    /// The key's name.
    pub fn name(&self) -> (name: &String)
        ensures
            name@ == self@,
    {
        &self.0
    }
}

/// A unique identifier for a peer on the network.
#[derive(Debug)]
pub struct PeerId {
    id: String,
    ip: Ipv4Address,
    port: u16,
}

/// What a `PeerId` holds.
pub ghost struct PeerIdView {
    pub id: Seq<char>,
    pub ip: Ipv4Address,
    pub port: u16,
}

/// The text every identifier starts with.
pub open spec fn id_prefix() -> Seq<char> {
    seq!['/', 'p', 'e', 'e', 'r', '/']
}

/// The identifier template: `/peer/<hash>/<ip>/<port>`.
pub open spec fn id_text(hash: Seq<char>, ip: Ipv4Address, port: u16) -> Seq<char> {
    id_prefix() + hash + seq!['/'] + dotted(ip) + seq!['/'] + decimal(port as nat)
}

/// The hash that enters the identifier of an endpoint: the hex SHA-256
/// digest of the UTF-8 bytes of its socket text.
pub open spec fn endpoint_hash(ip: Ipv4Address, port: u16) -> Seq<char> {
    hex_chars(sha256_digest(encode_utf8(socket_text(ip, port))))
}

/// The identity of the peer that listens on `ip:port`.
pub open spec fn identity_of(ip: Ipv4Address, port: u16) -> PeerIdView {
    PeerIdView { id: id_text(endpoint_hash(ip, port), ip, port), ip, port }
}

/// A hex digest holds no `/`.
pub proof fn lemma_hex_slash_free(bytes: Seq<u8>)
    ensures
        free_of(hex_chars(bytes), '/'),
{
    assert forall|i: int| 0 <= i < hex_chars(bytes).len() implies #[trigger] hex_chars(bytes)[i]
        != '/' by {
        let b = bytes[i / 2] as int;
        assert(hex_digit(b / 16) != '/');
        assert(hex_digit(b % 16) != '/');
    }
}

/// An identifier tells its parts: two identifiers built on hashes
/// without `/` are the same text only if hash, address and port all agree.
pub proof fn lemma_id_text_injective(
    h1: Seq<char>,
    ip1: Ipv4Address,
    port1: u16,
    h2: Seq<char>,
    ip2: Ipv4Address,
    port2: u16,
)
    requires
        free_of(h1, '/'),
        free_of(h2, '/'),
        id_text(h1, ip1, port1) == id_text(h2, ip2, port2),
    ensures
        h1 == h2,
        ip1 == ip2,
        port1 == port2,
{
    let slash = seq!['/'];
    let tail1 = dotted(ip1) + slash + decimal(port1 as nat);
    let tail2 = dotted(ip2) + slash + decimal(port2 as nat);
    let rest1 = h1 + slash + tail1;
    let rest2 = h2 + slash + tail2;
    let t1 = id_text(h1, ip1, port1);
    let t2 = id_text(h2, ip2, port2);
    assert(t1 =~= id_prefix() + rest1);
    assert(t2 =~= id_prefix() + rest2);
    assert(rest1 =~= t1.subrange(6, t1.len() as int));
    assert(rest2 =~= t2.subrange(6, t2.len() as int));
    lemma_cut_unique(h1, tail1, h2, tail2, '/');
    lemma_dotted_free_of(ip1, '/');
    lemma_dotted_free_of(ip2, '/');
    lemma_cut_unique(dotted(ip1), decimal(port1 as nat), dotted(ip2), decimal(port2 as nat), '/');
    lemma_dotted_injective(ip1, ip2);
    lemma_decimal_injective(port1 as nat, port2 as nat);
}

/// Building an identity is deterministic: two identities built for the
/// same endpoint are equal, whenever and wherever they were built.
pub proof fn lemma_identity_deterministic(a: PeerId, b: PeerId, ip: Ipv4Address, port: u16)
    requires
        a@ == identity_of(ip, port),
        b@ == identity_of(ip, port),
    ensures
        a@ == b@,
        PartialEqSpec::eq_spec(&a, &b),
{
}

/// Different endpoints never share an identity: the identifier spells
/// out the address and the port after the hash.
pub proof fn lemma_identity_injective(ip1: Ipv4Address, port1: u16, ip2: Ipv4Address, port2: u16)
    requires
        identity_of(ip1, port1).id == identity_of(ip2, port2).id,
    ensures
        ip1 == ip2,
        port1 == port2,
{
    lemma_hex_slash_free(sha256_digest(encode_utf8(socket_text(ip1, port1))));
    lemma_hex_slash_free(sha256_digest(encode_utf8(socket_text(ip2, port2))));
    lemma_id_text_injective(
        endpoint_hash(ip1, port1),
        ip1,
        port1,
        endpoint_hash(ip2, port2),
        ip2,
        port2,
    );
}

impl View for PeerId {
    type V = PeerIdView;

    closed spec fn view(&self) -> PeerIdView {
        PeerIdView { id: self.id@, ip: self.ip, port: self.port }
    }
}

impl Clone for PeerId {
    fn clone(&self) -> (copy: Self)
        ensures
            copy@ == self@,
    {
        PeerId { id: self.id.clone(), ip: self.ip, port: self.port }
    }
}

impl PartialEq for PeerId {
    /// Two identities are the same peer when their identifiers agree; the
    /// endpoint fields take no part.
    fn eq(&self, other: &Self) -> (same: bool) {
        self.id == other.id
    }
}

impl PartialEqSpecImpl for PeerId {
    open spec fn obeys_eq_spec() -> bool {
        true
    }

    open spec fn eq_spec(&self, other: &Self) -> bool {
        self@.id == other@.id
    }
}

impl Eq for PeerId {

}

impl PeerId {
    /// The identity of the peer that listens on `ip:port`.
    pub fn new(ip: Ipv4Address, port: u16) -> (peer: Self)
        ensures
            peer@ == identity_of(ip, port),
    {
        let mut data = String::new();
        append_socket(&mut data, ip, port);
        assert(data@ =~= socket_text(ip, port));
        let hash = hash_sha256(data.as_str().as_bytes());
        PeerId::with_hash(ip, port, hash.as_str())
    }

    /// The identity whose identifier embeds `hash` for the endpoint `ip:port`.
    pub fn with_hash(ip: Ipv4Address, port: u16, hash: &str) -> (peer: Self)
        ensures
            peer@ == (PeerIdView { id: id_text(hash@, ip, port), ip, port }),
    {
        let mut id = String::new();
        id.append("/peer/");
        id.append(hash);
        id.append("/");
        append_dotted(&mut id, ip);
        id.append("/");
        append_decimal(&mut id, port);
        proof {
            reveal_strlit("/peer/");
            reveal_strlit("/");
            assert("/peer/"@ =~= id_prefix());
            assert("/"@ =~= seq!['/']);
            assert(id@ =~= id_text(hash@, ip, port));
        }
        PeerId { id, ip, port }
    }

    /// An identity from its three stored parts, as they arrive from another
    /// node. Nothing ties `id` to the endpoint.
    pub fn from_parts(id: String, ip: Ipv4Address, port: u16) -> (peer: Self)
        ensures
            peer@ == (PeerIdView { id: id@, ip, port }),
    {
        PeerId { id, ip, port }
    }

    /// Same as [`PeerId::new`].
    pub fn from(ip: Ipv4Address, port: u16) -> (peer: Self)
        ensures
            peer@ == identity_of(ip, port),
    {
        PeerId::new(ip, port)
    }

    /// The identifier.
    pub fn to_string(&self) -> (id: String)
        ensures
            id@ == self@.id,
    {
        self.id.clone()
    }

    /// This identity's endpoint in the format `ip:port`, used to dial it.
    pub fn as_socket(&self) -> (socket: String)
        ensures
            socket@ == socket_text(self@.ip, self@.port),
    {
        let mut out = String::new();
        append_socket(&mut out, self.ip, self.port);
        assert(out@ =~= socket_text(self.ip, self.port));
        out
    }

    /// This identity's address.
    pub fn ip(&self) -> (ip: Ipv4Address)
        ensures
            ip == self@.ip,
    {
        self.ip
    }

    /// This identity's port.
    pub fn port(&self) -> (port: u16)
        ensures
            port == self@.port,
    {
        self.port
    }
}

} // verus!
