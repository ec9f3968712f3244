use harbor::addr::Ipv4Address;
use harbor::identity::{Key, PeerId};
use harbor::util::hash_sha256;
use sha2::Digest;

fn localhost() -> Ipv4Address {
    Ipv4Address::parse("127.0.0.1").unwrap()
}

#[test]
fn test_peer_id() {
    let id1 = PeerId::from(Ipv4Address::parse("127.0.0.1").unwrap(), 3300);
    println!("{id1:?}");
    assert!(id1.ip() == Ipv4Address::new(127, 0, 0, 1));
    assert!(id1.port() == 3300);
}

#[test]
fn test_hash() {
    let my_data = b"hello world";
    let hash = hash_sha256(my_data);
    println!("hash of {my_data:?}: {hash}");
    assert_eq!(hash, "b94d27b9934d3e08a52e52d7da7dabfac484efe37a5380ee9088f7ace2efcde9");
}

#[test]
fn hash_of_nothing() {
    assert_eq!(
        hash_sha256(b""),
        "e3b0c44298fc1c149afbf4c8996fb92427ae41e4649b934ca495991b7852b855"
    );
}

#[test]
fn hash_is_lowercase_hex_of_the_digest() {
    let data = b"10.0.0.1:9000";
    let digest = sha2::Sha256::digest(data);
    let hash = hash_sha256(data);
    assert_eq!(hash.len(), 64);
    assert_eq!(hash, hex::encode(digest));
    assert!(hash.chars().all(|c| "0123456789abcdef".contains(c)));
    assert_ne!(hash.as_bytes(), data);
}

#[test]
fn identity_is_deterministic() {
    let a = PeerId::new(localhost(), 3300);
    let b = PeerId::new(localhost(), 3300);
    assert!(a == b);
    assert_eq!(a.to_string(), b.to_string());
    assert_eq!(a.ip(), b.ip());
    assert_eq!(a.port(), b.port());
}

#[test]
fn identity_differs_by_endpoint() {
    let a = PeerId::new(localhost(), 3300);
    let b = PeerId::new(localhost(), 3301);
    let c = PeerId::new(Ipv4Address::new(127, 0, 0, 2), 3300);
    assert!(a != b);
    assert!(a != c);
    assert!(b != c);
    // The same digits cut differently are different endpoints.
    let d = PeerId::new(Ipv4Address::new(1, 2, 3, 4), 56);
    let e = PeerId::new(Ipv4Address::new(1, 2, 3, 45), 6);
    assert!(d != e);
}

#[test]
fn identity_text_follows_the_template() {
    let id = PeerId::new(Ipv4Address::new(192, 168, 1, 12), 9954);
    let hash = hex::encode(sha2::Sha256::digest(b"192.168.1.12:9954"));
    assert_eq!(id.to_string(), format!("/peer/{hash}/192.168.1.12/9954"));
    assert_eq!(
        id.to_string(),
        format!("/peer/{}/192.168.1.12/9954", hash_sha256(b"192.168.1.12:9954"))
    );
}

#[test]
fn identity_from_is_new() {
    let a = PeerId::from(localhost(), 80);
    let b = PeerId::new(localhost(), 80);
    assert!(a == b);
    assert_eq!(a.to_string(), b.to_string());
}

#[test]
fn identity_with_hash_embeds_the_hash() {
    let id = PeerId::with_hash(Ipv4Address::new(10, 0, 0, 1), 9000, "abc");
    assert_eq!(id.to_string(), "/peer/abc/10.0.0.1/9000");
    assert_eq!(id.ip(), Ipv4Address::new(10, 0, 0, 1));
    assert_eq!(id.port(), 9000);
}

#[test]
fn identity_from_parts_keeps_the_parts() {
    let id = PeerId::from_parts("anything".to_string(), Ipv4Address::new(8, 8, 8, 8), 53);
    assert_eq!(id.to_string(), "anything");
    assert_eq!(id.ip(), Ipv4Address::new(8, 8, 8, 8));
    assert_eq!(id.port(), 53);
    assert_eq!(id.as_socket(), "8.8.8.8:53");
}

#[test]
fn identity_equality_looks_at_the_identifier_only() {
    let a = PeerId::from_parts("same".to_string(), Ipv4Address::new(1, 1, 1, 1), 1);
    let b = PeerId::from_parts("same".to_string(), Ipv4Address::new(2, 2, 2, 2), 2);
    let c = PeerId::from_parts("other".to_string(), Ipv4Address::new(1, 1, 1, 1), 1);
    assert!(a == b);
    assert!(a != c);
}

#[test]
fn identity_clone_is_equal() {
    let a = PeerId::new(localhost(), 3300);
    let b = a.clone();
    assert!(a == b);
    assert_eq!(a.as_socket(), b.as_socket());
}

#[test]
fn as_socket_is_ip_colon_port() {
    assert_eq!(PeerId::new(localhost(), 3300).as_socket(), "127.0.0.1:3300");
    assert_eq!(PeerId::new(Ipv4Address::new(0, 0, 0, 0), 0).as_socket(), "0.0.0.0:0");
    assert_eq!(
        PeerId::new(Ipv4Address::new(255, 255, 255, 255), 65535).as_socket(),
        "255.255.255.255:65535"
    );
}

#[test]
fn key_keeps_its_name() {
    let key = Key::new("file.txt".to_string());
    assert_eq!(key.name(), "file.txt");
    assert_eq!(key.clone().name(), "file.txt");
}
