use watchparty::protocol::{Delivery, Peer, ServerMsg, SignalKind};
use watchparty::rooms::{RoomRegistry, HEARTBEAT_SECS};

fn peer(id: &str, name: &str) -> Peer {
    Peer { id: id.to_string(), name: name.to_string() }
}

fn state(playing: bool, position: i64, server_time: i64, video: Option<&str>) -> ServerMsg {
    ServerMsg::State {
        playing,
        position,
        server_time,
        rate: 1000,
        video_id: video.map(|v| v.to_string()),
    }
}

fn to(id: &str, msg: ServerMsg) -> Delivery {
    Delivery { room: "r".to_string(), to: id.to_string(), msg }
}

#[test]
fn first_join_opens_a_fresh_room() {
    let mut reg = RoomRegistry::new();
    let (mine, others) = reg.join_at("r", "a1".to_string(), "Ann".to_string(), 5_000_000);
    assert_eq!(
        mine,
        vec![
            ServerMsg::Welcome { you: "a1".to_string(), peers: vec![] },
            state(false, 0, 5_000_000, None),
        ]
    );
    assert!(others.is_empty());
}

#[test]
fn second_join_welcomes_with_existing_peers_and_announces() {
    let mut reg = RoomRegistry::new();
    reg.join_at("r", "a1".to_string(), "Ann".to_string(), 1_000);
    let (mine, others) = reg.join_at("r", "b2".to_string(), "Bob".to_string(), 2_000);
    assert_eq!(
        mine[0],
        ServerMsg::Welcome { you: "b2".to_string(), peers: vec![peer("a1", "Ann")] }
    );
    assert_eq!(mine[1], state(false, 0, 2_000, None));
    assert_eq!(others, vec![to("a1", ServerMsg::PeerJoined { peer: peer("b2", "Bob") })]);
}

#[test]
fn rejoin_with_same_id_renames_in_place() {
    let mut reg = RoomRegistry::new();
    reg.join_at("r", "a1".to_string(), "Ann".to_string(), 0);
    reg.join_at("r", "b2".to_string(), "Bob".to_string(), 0);
    reg.join_at("r", "a1".to_string(), "Annie".to_string(), 0);
    let (mine, _) = reg.join_at("r", "c3".to_string(), "Cy".to_string(), 0);
    assert_eq!(
        mine[0],
        ServerMsg::Welcome {
            you: "c3".to_string(),
            peers: vec![peer("a1", "Annie"), peer("b2", "Bob")],
        }
    );
}

#[test]
fn rooms_are_separate() {
    let mut reg = RoomRegistry::new();
    reg.join_at("one", "a1".to_string(), "Ann".to_string(), 0);
    let (mine, others) = reg.join_at("two", "b2".to_string(), "Bob".to_string(), 0);
    assert_eq!(mine[0], ServerMsg::Welcome { you: "b2".to_string(), peers: vec![] });
    assert!(others.is_empty());
    assert!(reg.seek_at("one", 10, 1).iter().all(|d| d.to == "a1"));
}

#[test]
fn play_broadcasts_the_anchor_to_everyone() {
    let mut reg = RoomRegistry::new();
    reg.join_at("r", "a1".to_string(), "Ann".to_string(), 0);
    reg.join_at("r", "b2".to_string(), "Bob".to_string(), 0);
    let sent = reg.set_play_at("r", true, 12_500_000, 100_000_000);
    assert_eq!(
        sent,
        vec![
            to("a1", state(true, 12_500_000, 100_000_000, None)),
            to("b2", state(true, 12_500_000, 100_000_000, None)),
        ]
    );
}

#[test]
fn pause_and_seek_report_their_position() {
    let mut reg = RoomRegistry::new();
    reg.join_at("r", "a1".to_string(), "Ann".to_string(), 0);
    let sent = reg.set_play_at("r", false, 7_000_000, 50);
    assert_eq!(sent, vec![to("a1", state(false, 7_000_000, 50, None))]);
    let sent = reg.seek_at("r", 9_000_000, 60);
    assert_eq!(sent, vec![to("a1", state(false, 9_000_000, 60, None))]);
}

#[test]
fn seek_while_playing_keeps_playing() {
    let mut reg = RoomRegistry::new();
    reg.join_at("r", "a1".to_string(), "Ann".to_string(), 0);
    reg.set_play_at("r", true, 0, 0);
    let sent = reg.seek_at("r", 30_000_000, 10);
    assert_eq!(sent, vec![to("a1", state(true, 30_000_000, 10, None))]);
}

#[test]
fn load_video_resets_to_paused_at_zero() {
    let mut reg = RoomRegistry::new();
    reg.join_at("r", "a1".to_string(), "Ann".to_string(), 0);
    reg.set_play_at("r", true, 40_000_000, 10);
    let sent = reg.load_video_at("r", "vid9".to_string(), 20);
    assert_eq!(sent, vec![to("a1", state(false, 0, 20, Some("vid9")))]);
}

#[test]
fn controls_on_a_missing_room_do_nothing() {
    let mut reg = RoomRegistry::new();
    assert!(reg.set_play_at("nowhere", true, 1, 1).is_empty());
    assert!(reg.seek_at("nowhere", 1, 1).is_empty());
    assert!(reg.load_video_at("nowhere", "v".to_string(), 1).is_empty());
    let (mine, _) = reg.join_at("nowhere", "a1".to_string(), "Ann".to_string(), 3);
    assert_eq!(mine[1], state(false, 0, 3, None));
}

#[test]
fn heartbeat_extrapolates_playing_rooms_only() {
    let mut reg = RoomRegistry::new();
    reg.join_at("playing", "a1".to_string(), "Ann".to_string(), 0);
    reg.join_at("paused", "b2".to_string(), "Bob".to_string(), 0);
    reg.set_play_at("playing", true, 1_000_000, 10_000_000);
    let sent = reg.heartbeat_at(13_000_000);
    assert_eq!(
        sent,
        vec![Delivery {
            room: "playing".to_string(),
            to: "a1".to_string(),
            msg: state(true, 4_000_000, 13_000_000, None),
        }]
    );
}

#[test]
fn heartbeat_of_paused_rooms_is_silent() {
    let mut reg = RoomRegistry::new();
    reg.join_at("r", "a1".to_string(), "Ann".to_string(), 0);
    assert!(reg.heartbeat_at(99).is_empty());
    assert!(RoomRegistry::new().heartbeat_at(5).is_empty());
}

#[test]
fn joiner_gets_extrapolated_state() {
    let mut reg = RoomRegistry::new();
    reg.join_at("r", "a1".to_string(), "Ann".to_string(), 0);
    reg.set_play_at("r", true, 2_000_000, 1_000_000);
    let (mine, _) = reg.join_at("r", "b2".to_string(), "Bob".to_string(), 3_500_000);
    assert_eq!(mine[1], state(true, 4_500_000, 3_500_000, None));
}

#[test]
fn leave_tells_the_rest_and_empty_rooms_vanish() {
    let mut reg = RoomRegistry::new();
    reg.join_at("r", "a1".to_string(), "Ann".to_string(), 0);
    reg.join_at("r", "b2".to_string(), "Bob".to_string(), 0);
    reg.set_play_at("r", true, 5, 5);
    let sent = reg.leave("r", "a1");
    assert_eq!(sent, vec![to("b2", ServerMsg::PeerLeft { id: "a1".to_string() })]);
    let sent = reg.leave("r", "b2");
    assert!(sent.is_empty());
    // The room is gone: a new join starts fresh.
    let (mine, others) = reg.join_at("r", "c3".to_string(), "Cy".to_string(), 9);
    assert_eq!(mine[0], ServerMsg::Welcome { you: "c3".to_string(), peers: vec![] });
    assert_eq!(mine[1], state(false, 0, 9, None));
    assert!(others.is_empty());
}

#[test]
fn leave_of_an_unknown_peer_still_announces() {
    let mut reg = RoomRegistry::new();
    reg.join_at("r", "a1".to_string(), "Ann".to_string(), 0);
    let sent = reg.leave("r", "zz");
    assert_eq!(sent, vec![to("a1", ServerMsg::PeerLeft { id: "zz".to_string() })]);
    assert!(reg.leave("elsewhere", "a1").is_empty());
}

#[test]
fn leave_undoes_join() {
    let mut reg = RoomRegistry::new();
    reg.join_at("r", "a1".to_string(), "Ann".to_string(), 0);
    reg.join_at("r", "b2".to_string(), "Bob".to_string(), 0);
    reg.leave("r", "b2");
    let (mine, _) = reg.join_at("r", "c3".to_string(), "Cy".to_string(), 0);
    assert_eq!(mine[0], ServerMsg::Welcome { you: "c3".to_string(), peers: vec![peer("a1", "Ann")] });
}

#[test]
fn relay_reaches_exactly_the_target() {
    let mut reg = RoomRegistry::new();
    reg.join_at("r", "a1".to_string(), "Ann".to_string(), 0);
    reg.join_at("r", "b2".to_string(), "Bob".to_string(), 0);
    let sent = reg.relay_signal("r", "a1".to_string(), "b2", SignalKind::Offer, "sdp".to_string());
    assert_eq!(
        sent,
        vec![to(
            "b2",
            ServerMsg::Signal {
                from: "a1".to_string(),
                kind: SignalKind::Offer,
                payload: "sdp".to_string(),
            },
        )]
    );
    assert!(reg.relay_signal("r", "a1".to_string(), "zz", SignalKind::Answer, "x".to_string()).is_empty());
    assert!(reg.relay_signal("q", "a1".to_string(), "b2", SignalKind::IceCandidate, "x".to_string()).is_empty());
}

#[test]
fn clock_reading_operations_agree_with_stamped_ones() {
    let mut reg = RoomRegistry::new();
    let (mine, _) = reg.join("r", "a1".to_string(), "Ann".to_string());
    match &mine[1] {
        ServerMsg::State { playing, position, server_time, .. } => {
            assert!(!playing);
            assert_eq!(*position, 0);
            assert!(*server_time > 0);
        }
        other => panic!("unexpected {other:?}"),
    }
    let sent = reg.set_play("r", true, 3_000_000);
    match &sent[0].msg {
        ServerMsg::State { playing, position, .. } => {
            assert!(*playing);
            assert_eq!(*position, 3_000_000);
        }
        other => panic!("unexpected {other:?}"),
    }
    assert_eq!(reg.seek("r", 8).len(), 1);
    assert_eq!(reg.load_video("r", "v".to_string()).len(), 1);
    assert_eq!(reg.heartbeat().len(), 0);
}

#[test]
fn heartbeat_period_is_three_seconds() {
    assert_eq!(HEARTBEAT_SECS, 3);
}

#[test]
fn relay_names_the_room_of_a_peer_in_two_rooms() {
    let mut reg = RoomRegistry::new();
    reg.join_at("r", "a".to_string(), "ann".to_string(), 0);
    reg.join_at("r", "b".to_string(), "bob".to_string(), 0);
    reg.join_at("s", "b".to_string(), "eve".to_string(), 0);
    let sent = reg.relay_signal("r", "a".to_string(), "b", SignalKind::Offer, "sdp1".to_string());
    assert_eq!(
        sent,
        vec![to(
            "b",
            ServerMsg::Signal { from: "a".to_string(), kind: SignalKind::Offer, payload: "sdp1".to_string() },
        )]
    );
    assert_eq!(sent[0].room, "r");
    reg.wf();
}
