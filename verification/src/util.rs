//! Helpers around the node: hashing a byte string to a hex digest, and
//! settling on the address the node announces.

use crate::addr::Ipv4Address;
use crate::{Error, ErrorView};
use sha2::Digest;
use vstd::prelude::*;

verus! {

/// The SHA-256 digest of a byte string.
pub uninterp spec fn sha256_digest(bytes: Seq<u8>) -> Seq<u8>;

/// The lowercase hexadecimal digit for a value below sixteen.
pub open spec fn hex_digit(n: int) -> char {
    if n == 0 {
        '0'
    } else if n == 1 {
        '1'
    } else if n == 2 {
        '2'
    } else if n == 3 {
        '3'
    } else if n == 4 {
        '4'
    } else if n == 5 {
        '5'
    } else if n == 6 {
        '6'
    } else if n == 7 {
        '7'
    } else if n == 8 {
        '8'
    } else if n == 9 {
        '9'
    } else if n == 10 {
        'a'
    } else if n == 11 {
        'b'
    } else if n == 12 {
        'c'
    } else if n == 13 {
        'd'
    } else if n == 14 {
        'e'
    } else {
        'f'
    }
}

/// Two lowercase hex digits per byte, the high nibble first.
pub open spec fn hex_chars(bytes: Seq<u8>) -> Seq<char> {
    Seq::new(
        2 * bytes.len(),
        |i: int|
            if i % 2 == 0 {
                hex_digit(bytes[i / 2] as int / 16)
            } else {
                hex_digit(bytes[i / 2] as int % 16)
            },
    )
}

/// Calls `sha2::Sha256` (`Digest::new`, `update`, `finalize`). Trusted: the
/// bytes returned are the SHA-256 digest of `bytes`, a function of the input
/// alone, and there are always thirty-two of them.
#[verifier::external_body]
fn sha256(bytes: &[u8]) -> (digest: Vec<u8>)
    ensures
        digest@ == sha256_digest(bytes@),
        digest@.len() == 32,
{
    let mut hasher = sha2::Sha256::new();
    hasher.update(bytes);
    hasher.finalize().to_vec()
}

/// Calls `hex::encode`. Trusted: every byte becomes two characters from
/// `0123456789abcdef`, the high nibble first, in input order.
#[verifier::external_body]
fn hex_encode(bytes: &[u8]) -> (text: String)
    ensures
        text@ == hex_chars(bytes@),
{
    hex::encode(bytes)
}

/// Hash a byte string with SHA-256 and render the digest as lowercase hex.
pub fn hash_sha256(bytes: &[u8]) -> (hash: String)
    ensures
        hash@ == hex_chars(sha256_digest(bytes@)),
        hash@.len() == 64,
{
    let digest = sha256(bytes);
    hex_encode(digest.as_slice())
}

/// What a lookup of this host's local address found.
#[derive(Debug)]
pub enum LocalAddress {
    /// An IPv4 address.
    V4(Ipv4Address),
    /// Only an IPv6 address, given as its text.
    V6(String),
    /// No address at all.
    Unavailable,
}

/// Settle on this system's local address from what a lookup found: an IPv4
/// address is taken, an IPv6 address is refused, and nothing found is an
/// error of its own.
pub fn get_local_ip(found: LocalAddress) -> (r: Result<Ipv4Address, Error>)
    ensures
        match found {
            LocalAddress::V4(v4) => r == Ok::<Ipv4Address, Error>(v4),
            LocalAddress::V6(v6) => r.is_err() && r.unwrap_err()@ == ErrorView::Ipv6Disabled(v6@),
            LocalAddress::Unavailable => r.is_err() && r.unwrap_err()@ == ErrorView::NoIp,
        },
{
    match found {
        LocalAddress::V4(v4) => Ok(v4),
        LocalAddress::V6(v6) => Err(Error::Ipv6Disabled(v6)),
        LocalAddress::Unavailable => Err(Error::NoIp),
    }
}

} // verus!
