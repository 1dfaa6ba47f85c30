use watchparty::calls::{remote_tile_id, CallPeers};

#[test]
fn connections_follow_peer_events() {
    let mut c = CallPeers::new();
    assert!(!c.has("a"));
    c.peer_joined("a");
    assert!(c.has("a"));
    c.peer_joined("a");
    assert!(c.offer_from("a"));
    assert!(!c.offer_from("b"));
    assert!(c.has("b"));
    assert!(c.peer_left("a"));
    assert!(!c.peer_left("a"));
    assert!(!c.has("a"));
    assert!(c.has("b"));
}

#[test]
fn reset_closes_each_connection_once() {
    let mut c = CallPeers::new();
    c.peer_joined("a");
    c.peer_joined("b");
    c.peer_joined("a");
    let mut closed = c.reset();
    closed.sort();
    assert_eq!(closed, vec!["a".to_string(), "b".to_string()]);
    assert!(!c.has("a"));
    assert!(c.reset().is_empty());
}

#[test]
fn remote_tiles_are_named_by_peer() {
    assert_eq!(remote_tile_id("ab12"), "remote-ab12");
}
