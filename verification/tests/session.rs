use watchparty::protocol::{ClientMsg, Delivery, Peer, ServerMsg, SignalKind};
use watchparty::rooms::RoomRegistry;
use watchparty::session::{Outcome, Session};

fn join(room: &str, name: &str) -> ClientMsg {
    ClientMsg::Join { room: room.to_string(), name: name.to_string(), video_id: None }
}

fn sent(o: Outcome) -> Vec<Delivery> {
    match o {
        Outcome::Sent { deliveries } => deliveries,
        Outcome::Joined { .. } => panic!("unexpected join"),
    }
}

#[test]
fn messages_before_join_are_ignored() {
    let mut reg = RoomRegistry::new();
    let mut s = Session::new();
    for m in [
        ClientMsg::Play { at: 1 },
        ClientMsg::Pause { at: 1 },
        ClientMsg::Seek { to: 1 },
        ClientMsg::LoadVideo { video_id: "v".to_string() },
        ClientMsg::Signal { to: "x".to_string(), kind: SignalKind::Offer, payload: "p".to_string() },
    ] {
        assert!(!Session::needs_peer_id(&m));
        assert!(sent(s.handle_at(&mut reg, m, String::new(), 0)).is_empty());
    }
    assert!(s.close(&mut reg).is_empty());
}

#[test]
fn join_then_controls_act_on_the_room() {
    let mut reg = RoomRegistry::new();
    let mut a = Session::new();
    let mut b = Session::new();
    assert!(Session::needs_peer_id(&join("r", "Ann")));
    match a.handle_at(&mut reg, join("r", "Ann"), "a1".to_string(), 0) {
        Outcome::Joined { id, to_joiner, to_peers } => {
            assert_eq!(id, "a1");
            assert_eq!(to_joiner.len(), 2);
            assert!(to_peers.is_empty());
        }
        o => panic!("unexpected {o:?}"),
    }
    match b.handle_at(&mut reg, join("r", "Bob"), "b2".to_string(), 1) {
        Outcome::Joined { to_peers, .. } => assert_eq!(
            to_peers,
            vec![Delivery {
                room: "r".to_string(),
                to: "a1".to_string(),
                msg: ServerMsg::PeerJoined { peer: Peer { id: "b2".to_string(), name: "Bob".to_string() } },
            }]
        ),
        o => panic!("unexpected {o:?}"),
    }
    assert_eq!(a.peer_id.as_deref(), Some("a1"));
    assert_eq!(a.room.as_deref(), Some("r"));
    let ds = sent(b.handle_at(&mut reg, ClientMsg::Pause { at: 4_000_000 }, String::new(), 5));
    assert_eq!(ds.len(), 2);
    assert!(ds.iter().all(|d| d.msg
        == ServerMsg::State { playing: false, position: 4_000_000, server_time: 5, rate: 1000, video_id: None }));
    let ds = sent(a.handle_at(
        &mut reg,
        ClientMsg::Signal { to: "b2".to_string(), kind: SignalKind::IceCandidate, payload: "{}".to_string() },
        String::new(),
        6,
    ));
    assert_eq!(
        ds,
        vec![Delivery {
            room: "r".to_string(),
            to: "b2".to_string(),
            msg: ServerMsg::Signal { from: "a1".to_string(), kind: SignalKind::IceCandidate, payload: "{}".to_string() },
        }]
    );
}

#[test]
fn close_after_join_leaves_the_room() {
    let mut reg = RoomRegistry::new();
    let mut a = Session::new();
    let mut b = Session::new();
    a.handle_at(&mut reg, join("r", "Ann"), "a1".to_string(), 0);
    b.handle_at(&mut reg, join("r", "Bob"), "b2".to_string(), 0);
    assert_eq!(
        b.close(&mut reg),
        vec![Delivery { room: "r".to_string(), to: "a1".to_string(), msg: ServerMsg::PeerLeft { id: "b2".to_string() } }]
    );
    assert!(a.close(&mut reg).is_empty());
    let (mine, _) = reg.join_at("r", "c3".to_string(), "Cy".to_string(), 0);
    assert_eq!(mine[0], ServerMsg::Welcome { you: "c3".to_string(), peers: vec![] });
}

#[test]
fn handle_reads_the_clock_for_controls() {
    let mut reg = RoomRegistry::new();
    let mut a = Session::new();
    a.handle(&mut reg, join("r", "Ann"), "a1".to_string());
    let ds = sent(a.handle(&mut reg, ClientMsg::Seek { to: 77 }, String::new()));
    match &ds[0].msg {
        ServerMsg::State { position, server_time, .. } => {
            assert_eq!(*position, 77);
            assert!(*server_time > 0);
        }
        m => panic!("unexpected {m:?}"),
    }
}
