use harbor::addr::Ipv4Address;
use harbor::identity::PeerId;
use harbor::store::{PeerStore, PeerStoreEntry, Timestamp};

fn id(last: u8, port: u16) -> PeerId {
    PeerId::new(Ipv4Address::new(10, 0, 0, last), port)
}

fn me() -> PeerId {
    id(1, 3300)
}

fn at(secs: i64) -> Timestamp {
    Timestamp { secs, nanos: 0 }
}

#[test]
fn new_store_is_empty() {
    let store = PeerStore::new(me(), 32);
    assert_eq!(store.size(), 0);
    assert_eq!(store.capacity(), 32);
    assert!(*store.local() == me());
    assert!(store.snapshot().is_empty());
    assert!(store.contains(&id(2, 1)).is_none());
}

#[test]
fn store_never_takes_its_own_node() {
    let mut store = PeerStore::new(me(), 32);
    assert!(!store.add(me()));
    assert_eq!(store.size(), 0);
    assert!(store.add(id(2, 1)));
    assert!(!store.add(me()));
    assert!(!store.add_at(me(), at(5)));
    assert_eq!(store.size(), 1);
    assert!(store.contains(&me()).is_none());
}

#[test]
fn store_counts_a_join_once() {
    let mut store = PeerStore::new(me(), 32);
    let before = store.size();
    assert!(store.add(id(2, 9000)));
    assert!(!store.add(id(2, 9000)));
    assert_eq!(store.size(), before + 1);
    assert!(!store.add(id(2, 9000)));
    assert_eq!(store.size(), before + 1);
}

#[test]
fn store_refreshes_last_seen_on_a_repeated_add() {
    let mut store = PeerStore::new(me(), 32);
    assert!(store.add_at(id(2, 9000), at(100)));
    assert!(store.add_at(id(3, 9000), at(101)));
    let fresh = store.snapshot();
    assert_eq!(fresh[0].last_seen(), None);
    assert_eq!(fresh[1].last_seen(), None);
    assert!(!store.add_at(id(2, 9000), at(200)));
    let seen = store.snapshot();
    assert_eq!(seen.len(), 2);
    assert_eq!(seen[0].last_seen(), Some(at(200)));
    assert!(*seen[0].id() == id(2, 9000));
    assert_eq!(seen[1].last_seen(), None);
    assert!(!store.add_at(id(2, 9000), Timestamp { secs: 300, nanos: 7 }));
    assert_eq!(store.snapshot()[0].last_seen(), Some(Timestamp { secs: 300, nanos: 7 }));
}

#[test]
fn store_add_stamps_a_refresh_with_a_time() {
    let mut store = PeerStore::new(me(), 32);
    assert!(store.add(id(2, 9000)));
    assert_eq!(store.snapshot()[0].last_seen(), None);
    assert!(!store.add(id(2, 9000)));
    let seen = store.snapshot()[0].last_seen();
    assert!(seen.is_some());
    assert!(seen.unwrap().secs > 1_000_000_000);
}

#[test]
fn store_keeps_the_identity_it_stored() {
    let mut store = PeerStore::new(me(), 32);
    let first = PeerId::from_parts("x".to_string(), Ipv4Address::new(1, 1, 1, 1), 1);
    let again = PeerId::from_parts("x".to_string(), Ipv4Address::new(2, 2, 2, 2), 2);
    assert!(store.add_at(first, at(1)));
    assert!(!store.add_at(again.clone(), at(2)));
    let found = store.contains(&again).unwrap();
    assert_eq!(found.as_socket(), "1.1.1.1:1");
}

#[test]
fn store_rejects_newcomers_when_full() {
    let mut store = PeerStore::new(me(), 3);
    assert!(store.add(id(2, 1)));
    assert!(store.add(id(3, 1)));
    assert!(store.add(id(4, 1)));
    assert_eq!(store.size(), 3);
    assert!(!store.add(id(5, 1)));
    assert_eq!(store.size(), 3);
    assert!(store.contains(&id(5, 1)).is_none());
    assert!(store.size() <= store.capacity());
}

#[test]
fn store_of_no_capacity_takes_nobody() {
    let mut store = PeerStore::new(me(), 0);
    assert!(!store.add(id(2, 1)));
    assert_eq!(store.size(), 0);
}

#[test]
fn full_store_does_not_refresh() {
    let mut store = PeerStore::new(me(), 1);
    assert!(store.add_at(id(2, 1), at(1)));
    assert!(!store.add_at(id(2, 1), at(2)));
    assert_eq!(store.snapshot()[0].last_seen(), None);
}

#[test]
fn store_has_room_again_after_a_removal() {
    let mut store = PeerStore::new(me(), 2);
    assert!(store.add(id(2, 1)));
    assert!(store.add(id(3, 1)));
    assert!(!store.add(id(4, 1)));
    assert!(store.remove(&id(2, 1)));
    assert!(store.add(id(4, 1)));
    assert_eq!(store.size(), 2);
}

#[test]
fn store_contains_returns_the_stored_identity() {
    let mut store = PeerStore::new(me(), 32);
    store.add(id(2, 9000));
    store.add(id(3, 9001));
    let found = store.contains(&id(3, 9001)).unwrap();
    assert!(found == id(3, 9001));
    assert_eq!(found.as_socket(), "10.0.0.3:9001");
    assert!(store.contains(&id(4, 9001)).is_none());
}

#[test]
fn store_remove_is_idempotent() {
    let mut store = PeerStore::new(me(), 32);
    store.add(id(2, 1));
    store.add(id(3, 1));
    store.add(id(4, 1));
    assert!(store.remove(&id(3, 1)));
    assert_eq!(store.size(), 2);
    assert!(!store.remove(&id(3, 1)));
    assert_eq!(store.size(), 2);
    let left = store.snapshot();
    assert!(*left[0].id() == id(2, 1));
    assert!(*left[1].id() == id(4, 1));
    assert!(!store.remove(&id(9, 9)));
}

#[test]
fn snapshot_is_a_copy() {
    let mut store = PeerStore::new(me(), 32);
    store.add(id(2, 1));
    store.add(id(3, 1));
    let copy = store.snapshot();
    assert_eq!(copy.len(), 2);
    store.add(id(4, 1));
    store.remove(&id(2, 1));
    store.add_at(id(3, 1), at(9));
    assert_eq!(copy.len(), 2);
    assert!(*copy[0].id() == id(2, 1));
    assert!(*copy[1].id() == id(3, 1));
    assert_eq!(copy[1].last_seen(), None);
    assert_eq!(store.size(), 2);
}

#[test]
fn snapshot_keeps_joining_order() {
    let mut store = PeerStore::new(me(), 32);
    for last in [9u8, 4, 7, 2] {
        store.add(id(last, 1));
    }
    let copy = store.snapshot();
    let sockets: Vec<String> = copy.iter().map(|e| e.id().as_socket()).collect();
    assert_eq!(sockets, vec!["10.0.0.9:1", "10.0.0.4:1", "10.0.0.7:1", "10.0.0.2:1"]);
}

#[test]
fn entry_is_fresh_until_seen() {
    let entry = PeerStoreEntry::new(id(2, 1));
    assert_eq!(entry.last_seen(), None);
    assert!(*entry.id() == id(2, 1));
    let seen = PeerStoreEntry::from_parts(id(2, 1), Some(at(5)));
    assert_eq!(seen.last_seen(), Some(at(5)));
    assert!(entry == seen);
    assert!(entry != PeerStoreEntry::new(id(3, 1)));
    let copy = seen.clone();
    assert_eq!(copy.last_seen(), Some(at(5)));
    assert!(copy == seen);
}

#[test]
fn distinct_joins_all_succeed() {
    let mut store = PeerStore::new(me(), 32);
    let mut joined = 0;
    for n in 0..32u16 {
        if store.add(id(2, 4000 + n)) {
            joined += 1;
        }
    }
    assert_eq!(joined, 32);
    assert_eq!(store.size(), 32);
    assert!(!store.add(id(2, 5000)));
    assert_eq!(store.size(), 32);
}

#[test]
fn refreshes_only_a_member_with_room() {
    let mut store = PeerStore::new(me(), 2);
    assert!(!store.refreshes(&id(2, 1)));
    assert!(!store.refreshes(&me()));
    store.add(id(2, 1));
    assert!(store.refreshes(&id(2, 1)));
    assert!(!store.refreshes(&id(3, 1)));
    store.add(id(3, 1));
    // Full: nothing is refreshed any more.
    assert!(!store.refreshes(&id(2, 1)));
    assert!(!store.refreshes(&id(4, 1)));
}

#[test]
fn add_leaves_a_newcomer_unstamped() {
    let mut store = PeerStore::new(me(), 32);
    assert!(store.add(id(2, 1)));
    assert!(store.add(id(3, 1)));
    assert!(!store.add(me()));
    assert!(store.snapshot().iter().all(|e| e.last_seen().is_none()));
    assert!(!store.add(id(3, 1)));
    let seen = store.snapshot();
    assert_eq!(seen[0].last_seen(), None);
    assert!(seen[1].last_seen().is_some());
}
