use harbor::addr::Ipv4Address;
use harbor::identity::PeerId;
use harbor::peer::{peer, Peer, Startup, BOOTSTRAP_PORT};
use harbor::protocol::{Request, Response};
use harbor::store::Timestamp;
use harbor::util::{get_local_ip, LocalAddress};
use harbor::{Error, NetworkError, BOOTSTRAP_FILE, MAX_PEERS};

fn here() -> LocalAddress {
    LocalAddress::V4(Ipv4Address::new(127, 0, 0, 1))
}

fn lines(text: &[&str]) -> Vec<String> {
    text.iter().map(|s| s.to_string()).collect()
}

fn id(text: &str, port: u16) -> PeerId {
    PeerId::from(Ipv4Address::parse(text).unwrap(), port)
}

#[test]
fn test_bootstrap() {
    let mut peer = Peer::new(true, 3300, here()).unwrap();
    peer.bootstrap(&lines(&[])).unwrap();
    println!("peer: {:#?}", peer);
}

#[test]
fn add_peer() {
    let mut peer = Peer::new(true, 9900, here()).unwrap();

    peer.add_peer(PeerId::from(Ipv4Address::parse("127.0.0.1").unwrap(), 3300));
    peer.add_peer(PeerId::from(Ipv4Address::parse("127.0.0.1").unwrap(), 3300));
    peer.add_peer(PeerId::from(Ipv4Address::parse("192.168.1.12").unwrap(), 9954));
    peer.add_peer(PeerId::from(Ipv4Address::parse("192.168.1.82").unwrap(), 9900));

    println!("{peer:#?}");
    assert_eq!(peer.peers().size(), 3);
}

#[test]
fn constants_are_as_configured() {
    assert_eq!(MAX_PEERS, 32);
    assert_eq!(BOOTSTRAP_FILE, "bootstrap.txt");
    assert_eq!(BOOTSTRAP_PORT, 3300);
}

#[test]
fn new_peer_knows_nobody() {
    let peer = Peer::new(false, 9900, here()).unwrap();
    assert!(*peer.id() == id("127.0.0.1", 9900));
    assert_eq!(peer.id().as_socket(), "127.0.0.1:9900");
    assert_eq!(peer.peers().size(), 0);
    assert_eq!(peer.peers().capacity(), 32);
    assert!(*peer.peers().local() == *peer.id());
}

#[test]
fn new_peer_needs_an_ipv4_address() {
    match Peer::new(true, 1, LocalAddress::Unavailable) {
        Err(Error::NoIp) => {}
        other => panic!("{other:?}"),
    }
    match Peer::new(true, 1, LocalAddress::V6("::1".to_string())) {
        Err(Error::Ipv6Disabled(ip)) => assert_eq!(ip, "::1"),
        other => panic!("{other:?}"),
    }
}

#[test]
fn local_ip_is_settled_from_the_lookup() {
    assert_eq!(get_local_ip(here()).unwrap(), Ipv4Address::new(127, 0, 0, 1));
    assert!(matches!(get_local_ip(LocalAddress::Unavailable), Err(Error::NoIp)));
    match get_local_ip(LocalAddress::V6("fe80::1".to_string())) {
        Err(Error::Ipv6Disabled(ip)) => assert_eq!(ip, "fe80::1"),
        other => panic!("{other:?}"),
    }
}

#[test]
fn add_peer_refuses_this_node() {
    let mut peer = Peer::new(true, 9900, here()).unwrap();
    assert!(!peer.add_peer(id("127.0.0.1", 9900)));
    assert!(!peer.add_peer(peer.id().clone()));
    assert_eq!(peer.peers().size(), 0);
}

#[test]
fn add_peer_counts_a_join_once() {
    let mut peer = Peer::new(true, 9900, here()).unwrap();
    assert!(peer.add_peer(id("127.0.0.1", 3300)));
    assert!(!peer.add_peer(id("127.0.0.1", 3300)));
    assert_eq!(peer.peers().size(), 1);
    assert!(!peer.add_peer_at(id("127.0.0.1", 3300), Timestamp { secs: 9, nanos: 1 }));
    assert_eq!(
        peer.peers().snapshot()[0].last_seen(),
        Some(Timestamp { secs: 9, nanos: 1 })
    );
}

#[test]
fn add_peer_stops_at_the_maximum() {
    let mut peer = Peer::new(true, 9900, here()).unwrap();
    for n in 0..32u16 {
        assert!(peer.add_peer(id("10.1.1.1", n)));
    }
    assert_eq!(peer.peers().size(), 32);
    assert!(!peer.add_peer(id("10.1.1.1", 32)));
    assert_eq!(peer.peers().size(), 32);
}

#[test]
fn bootstrap_skips_a_malformed_line() {
    let mut peer = Peer::new(true, 3300, here()).unwrap();
    let count = peer.bootstrap(&lines(&["10.0.0.1:9000", "bad-line", "10.0.0.2:9001"])).unwrap();
    assert_eq!(count, 2);
    assert_eq!(peer.peers().size(), 2);
    let known = peer.peers().snapshot();
    assert!(*known[0].id() == id("10.0.0.1", 9000));
    assert!(*known[1].id() == id("10.0.0.2", 9001));
}

#[test]
fn bootstrap_skips_duplicates_and_this_node() {
    let mut peer = Peer::new(true, 3300, here()).unwrap();
    let count = peer
        .bootstrap(&lines(&[
            "10.0.0.1:9000",
            "127.0.0.1:3300",
            "10.0.0.1:9000",
            "10.0.0.2:9001",
            "",
            "10.0.0.3",
            "10.0.0.3:x",
            "300.0.0.3:1",
            "10.0.0.3:1:2",
        ]))
        .unwrap();
    assert_eq!(count, 2);
    assert_eq!(peer.peers().size(), 2);
}

#[test]
fn bootstrap_of_nothing_adds_nobody() {
    let mut peer = Peer::new(true, 3300, here()).unwrap();
    assert_eq!(peer.bootstrap(&Vec::new()).unwrap(), 0);
    assert_eq!(peer.peers().size(), 0);
}

#[test]
fn bootstrap_stops_counting_at_the_maximum() {
    let mut peer = Peer::new(true, 3300, here()).unwrap();
    let hosts: Vec<String> = (0..40).map(|n| format!("10.0.0.1:{}", 9000 + n)).collect();
    assert_eq!(peer.bootstrap(&hosts).unwrap(), 32);
    assert_eq!(peer.peers().size(), 32);
}

#[test]
fn bootstrap_at_stamps_repeated_hosts() {
    let mut peer = Peer::new(true, 3300, here()).unwrap();
    let now = Timestamp { secs: 42, nanos: 0 };
    let count = peer.bootstrap_at(&lines(&["10.0.0.1:9000", "10.0.0.1:9000"]), now).unwrap();
    assert_eq!(count, 1);
    assert_eq!(peer.peers().snapshot()[0].last_seen(), Some(now));
}

#[test]
fn router_resolves_self_known_and_unknown() {
    let mut peer = Peer::new(true, 3300, here()).unwrap();
    let known = id("10.0.0.1", 9000);
    let unknown = id("10.0.0.9", 9000);
    peer.add_peer(known.clone());

    let own = peer.router(peer.id().clone()).unwrap();
    assert!(own == *peer.id());

    let found = peer.router(known.clone()).unwrap();
    assert!(found == known);
    assert_eq!(found.as_socket(), "10.0.0.1:9000");

    match peer.router(unknown.clone()) {
        Err(NetworkError::NoRoute(dest)) => assert!(dest == unknown),
        other => panic!("{other:?}"),
    }
}

#[test]
fn router_without_hops_reaches_only_this_node() {
    let mut peer = Peer::new(true, 3300, here()).unwrap();
    let known = id("10.0.0.1", 9000);
    peer.add_peer(known.clone());
    assert!(peer.route_within(peer.id().clone(), 0).unwrap() == *peer.id());
    assert!(matches!(peer.route_within(known.clone(), 0), Err(NetworkError::NoRoute(_))));
    assert!(peer.route_within(known.clone(), 1).unwrap() == known);
    assert!(peer.route_within(known.clone(), 7).unwrap() == known);
    assert!(matches!(peer.route_within(id("1.1.1.1", 1), 7), Err(NetworkError::NoRoute(_))));
}

#[test]
fn send_ping_goes_through_the_router() {
    let mut peer = Peer::new(true, 3300, here()).unwrap();
    let known = id("10.0.0.1", 9000);
    peer.add_peer(known.clone());
    let out = peer.send_ping(&known).unwrap();
    assert!(out.to == known);
    assert_eq!(out.address, "10.0.0.1:9000");
    assert!(matches!(out.request, Request::Ping));
    match peer.send_ping(&id("10.0.0.2", 9000)) {
        Err(NetworkError::NoRoute(dest)) => assert!(dest == id("10.0.0.2", 9000)),
        other => panic!("{other:?}"),
    }
}

#[test]
fn send_pings_addresses_every_known_peer() {
    let mut peer = Peer::new(true, 3300, here()).unwrap();
    assert!(peer.send_pings().is_empty());
    peer.add_peer(id("10.0.0.1", 9000));
    peer.add_peer(id("10.0.0.2", 9001));
    let pings = peer.send_pings();
    assert_eq!(pings.len(), 2);
    assert_eq!(pings[0].address, "10.0.0.1:9000");
    assert_eq!(pings[1].address, "10.0.0.2:9001");
    assert!(pings.iter().all(|p| matches!(p.request, Request::Ping)));
    assert!(pings[1].to == id("10.0.0.2", 9001));
}

#[test]
fn handle_response_accepts_a_pong() {
    let peer = Peer::new(true, 3300, here()).unwrap();
    assert!(peer.handle_response(Response::Pong).is_ok());
    match peer.handle_response(Response::Failure(NetworkError::Fail("down".to_string()))) {
        Err(Error::NetworkError(NetworkError::Fail(msg))) => assert_eq!(msg, "down"),
        other => panic!("{other:?}"),
    }
    match peer.handle_response(Response::Success) {
        Err(Error::NetworkError(NetworkError::Fail(msg))) => {
            assert_eq!(msg, "unexpected response")
        }
        other => panic!("{other:?}"),
    }
    assert!(peer.handle_response(Response::Msg("hi".to_string())).is_err());
}

#[test]
fn start_plans_listening_and_pings() {
    let mut peer = Peer::new(true, 4400, here()).unwrap();
    let plan: Startup = peer.start(&lines(&["10.0.0.1:9000", "nope", "10.0.0.2:9001"]), true).unwrap();
    assert_eq!(plan.bootstrapped, 2);
    assert_eq!(plan.listen_on, "127.0.0.1:4400");
    assert_eq!(plan.pings.len(), 2);
    assert_eq!(plan.pings[0].address, "10.0.0.1:9000");
    assert_eq!(plan.pings[1].address, "10.0.0.2:9001");

    let mut quiet = Peer::new(true, 4400, here()).unwrap();
    let plan = quiet.start(&lines(&["10.0.0.1:9000"]), false).unwrap();
    assert_eq!(plan.bootstrapped, 1);
    assert!(plan.pings.is_empty());
    assert_eq!(quiet.peers().size(), 1);
}

#[test]
fn bootstrap_peer_sends_no_pings() {
    let hosts = lines(&["10.0.0.1:9000", "10.0.0.2:9001"]);
    let (node, plan) = peer(3300, here(), &hosts).unwrap();
    assert_eq!(node.peers().size(), 2);
    assert_eq!(plan.bootstrapped, 2);
    assert_eq!(plan.listen_on, "127.0.0.1:3300");
    assert!(plan.pings.is_empty());

    let (node, plan) = peer(3301, here(), &hosts).unwrap();
    assert_eq!(node.peers().size(), 2);
    assert_eq!(plan.listen_on, "127.0.0.1:3301");
    assert_eq!(plan.pings.len(), 2);

    assert!(matches!(peer(3301, LocalAddress::Unavailable, &hosts), Err(Error::NoIp)));
}

#[test]
fn bootstrap_stamps_repeats_with_one_reading() {
    let mut peer = Peer::new(true, 3300, here()).unwrap();
    let count = peer
        .bootstrap(&lines(&[
            "10.0.0.1:9000",
            "10.0.0.2:9000",
            "10.0.0.3:9000",
            "10.0.0.1:9000",
            "bad-line",
            "10.0.0.3:9000",
        ]))
        .unwrap();
    assert_eq!(count, 3);
    let known = peer.peers().snapshot();
    assert_eq!(known.len(), 3);
    assert!(known[0].last_seen().is_some());
    assert_eq!(known[1].last_seen(), None);
    assert_eq!(known[2].last_seen(), known[0].last_seen());
}

#[test]
fn bootstrap_without_repeats_stamps_nobody() {
    let mut peer = Peer::new(true, 3300, here()).unwrap();
    let count =
        peer.bootstrap(&lines(&["10.0.0.1:9000", "127.0.0.1:3300", "x", "10.0.0.2:9000"])).unwrap();
    assert_eq!(count, 2);
    assert!(peer.peers().snapshot().iter().all(|e| e.last_seen().is_none()));
}
