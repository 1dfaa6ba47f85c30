use watchparty::client::{
    guest_if_blank, initial_room, invite_link, join_message, join_name, may_report, media_url,
    peer_joined, peer_label, peer_left, pick_video, reconcile, room_from_query, socket_url,
    suppress_until, watching_count, PlayerCommand,
};
use watchparty::client::{
    may_join, reconnect_delay, report_event, PlayerEvent, Reaction, Roster, RECONNECT_DELAY_MS,
};
use watchparty::protocol::{ClientMsg, Peer, ServerMsg, SignalKind, Video};
use watchparty::rooms::RoomRegistry;

fn peer(id: &str, name: &str) -> Peer {
    Peer { id: id.to_string(), name: name.to_string() }
}

fn video(id: &str) -> Video {
    Video { id: id.to_string(), name: format!("{id} film"), uploaded_at: 0 }
}

#[test]
fn invite_room_and_default() {
    assert_eq!(room_from_query(Some("abc".to_string())), Some("abc".to_string()));
    assert_eq!(room_from_query(Some(String::new())), None);
    assert_eq!(room_from_query(None), None);
    assert_eq!(initial_room(Some("abc".to_string())), "abc");
    assert_eq!(initial_room(Some(String::new())), "main");
    assert_eq!(initial_room(None), "main");
}

#[test]
fn blank_names_become_guest() {
    assert_eq!(join_name("   ".to_string()), "guest");
    assert_eq!(join_name(String::new()), "guest");
    assert_eq!(join_name(" Ann ".to_string()), " Ann ");
    assert_eq!(guest_if_blank("x".to_string(), ""), "guest");
    assert_eq!(guest_if_blank("x".to_string(), "x"), "x");
}

#[test]
fn join_message_carries_room_name_and_video() {
    assert_eq!(
        join_message("r".to_string(), "\t".to_string(), &Some(video("v1"))),
        ClientMsg::Join { room: "r".to_string(), name: "guest".to_string(), video_id: Some("v1".to_string()) }
    );
    assert_eq!(
        join_message("r".to_string(), "Bo".to_string(), &None),
        ClientMsg::Join { room: "r".to_string(), name: "Bo".to_string(), video_id: None }
    );
}

#[test]
fn peer_list_follows_events_without_duplicates() {
    let mut ps = vec![peer("a", "Ann")];
    peer_joined(&mut ps, peer("b", "Bob"));
    peer_joined(&mut ps, peer("a", "Other"));
    assert_eq!(ps, vec![peer("a", "Ann"), peer("b", "Bob")]);
    peer_left(&mut ps, "a");
    assert_eq!(ps, vec![peer("b", "Bob")]);
    peer_left(&mut ps, "zz");
    assert_eq!(ps, vec![peer("b", "Bob")]);
    let mut dup = vec![peer("a", "1"), peer("b", "2"), peer("a", "3")];
    peer_left(&mut dup, "a");
    assert_eq!(dup, vec![peer("b", "2")]);
}

#[test]
fn watching_count_is_at_least_one() {
    assert_eq!(watching_count(0), 1);
    assert_eq!(watching_count(1), 1);
    assert_eq!(watching_count(3), 3);
}

#[test]
fn picking_the_video_for_a_state() {
    let lib = vec![video("a"), video("b"), video("b")];
    assert_eq!(pick_video(&None, &lib, &Some("b".to_string())), Some(video("b")));
    assert_eq!(pick_video(&Some(video("b")), &lib, &Some("b".to_string())), None);
    assert_eq!(pick_video(&Some(video("a")), &lib, &Some("b".to_string())), Some(video("b")));
    assert_eq!(pick_video(&Some(video("a")), &lib, &Some("zz".to_string())), None);
    assert_eq!(pick_video(&Some(video("a")), &lib, &None), None);
}

#[test]
fn reconcile_seeks_only_past_the_drift_limit() {
    assert_eq!(reconcile(true, 10_000_000, 10_300_000), PlayerCommand::Play { seek_to: None });
    assert_eq!(reconcile(true, 10_000_000, 10_300_001), PlayerCommand::Play { seek_to: Some(10_000_000) });
    assert_eq!(reconcile(true, 10_000_000, 9_699_999), PlayerCommand::Play { seek_to: Some(10_000_000) });
    assert_eq!(reconcile(false, 10_000_000, 10_000_000), PlayerCommand::Pause { seek_to: 10_000_000 });
    assert_eq!(reconcile(true, i64::MIN, i64::MAX), PlayerCommand::Play { seek_to: Some(i64::MIN) });
}

#[test]
fn echo_suppression_window() {
    assert_eq!(suppress_until(1_000), 1_700);
    assert_eq!(suppress_until(i64::MAX - 10), i64::MAX);
    assert!(!may_report(1_699, 1_700));
    assert!(may_report(1_700, 1_700));
}

#[test]
fn labels_and_addresses() {
    let me = Some("a".to_string());
    assert_eq!(peer_label(&peer("a", "Ann"), &me), "Ann (you)");
    assert_eq!(peer_label(&peer("b", "Bob"), &me), "Bob");
    assert_eq!(peer_label(&peer("a", "Ann"), &None), "Ann");
    assert_eq!(invite_link("https://x.org", "fun"), "https://x.org/?room=fun");
    assert_eq!(media_url("v1"), "/media/v1.mp4");
    assert_eq!(socket_url(&"https:".to_string(), "x.org"), "wss://x.org/ws");
    assert_eq!(socket_url(&"http:".to_string(), "localhost:8080"), "ws://localhost:8080/ws");
}

#[test]
fn roster_follows_the_server_and_only_newcomers_get_offers() {
    let mut r = Roster::new();
    let welcome = ServerMsg::Welcome { you: "me".to_string(), peers: vec![peer("a", "Ann")] };
    assert_eq!(r.on_server_msg(welcome), Reaction::Nothing);
    assert_eq!(r.me.as_deref(), Some("me"));
    assert_eq!(r.peers, vec![peer("a", "Ann")]);
    assert_eq!(
        r.on_server_msg(ServerMsg::PeerJoined { peer: peer("b", "Bob") }),
        Reaction::Offer { to: "b".to_string() }
    );
    assert_eq!(
        r.on_server_msg(ServerMsg::PeerJoined { peer: peer("b", "Bob") }),
        Reaction::Offer { to: "b".to_string() }
    );
    assert_eq!(r.peers, vec![peer("a", "Ann"), peer("b", "Bob")]);
    assert_eq!(
        r.on_server_msg(ServerMsg::PeerLeft { id: "a".to_string() }),
        Reaction::Hangup { pid: "a".to_string() }
    );
    assert_eq!(r.peers, vec![peer("b", "Bob")]);
    let state = ServerMsg::State { playing: true, position: 5, server_time: 9, rate: 1000, video_id: None };
    assert_eq!(r.on_server_msg(state), Reaction::Apply { playing: true, position: 5, video_id: None });
    let sig = |kind| ServerMsg::Signal { from: "b".to_string(), kind, payload: "x".to_string() };
    assert_eq!(
        r.on_server_msg(sig(SignalKind::Offer)),
        Reaction::AnswerOffer { from: "b".to_string(), sdp: "x".to_string() }
    );
    assert_eq!(
        r.on_server_msg(sig(SignalKind::Answer)),
        Reaction::AcceptAnswer { from: "b".to_string(), sdp: "x".to_string() }
    );
    assert_eq!(
        r.on_server_msg(sig(SignalKind::IceCandidate)),
        Reaction::AddCandidate { from: "b".to_string(), candidate: "x".to_string() }
    );
}

#[test]
fn one_initiator_per_pair() {
    let mut reg = RoomRegistry::new();
    reg.join_at("r", "a".to_string(), "Ann".to_string(), 0);
    let (to_newcomer, to_others) = reg.join_at("r", "b".to_string(), "Bob".to_string(), 0);
    let mut newcomer = Roster::new();
    for m in to_newcomer {
        assert!(!matches!(newcomer.on_server_msg(m), Reaction::Offer { .. }));
    }
    let mut old_timer = Roster::new();
    for d in to_others {
        assert_eq!(old_timer.on_server_msg(d.msg), Reaction::Offer { to: "b".to_string() });
    }
}

#[test]
fn white_space_is_unicode_white_space() {
    assert_eq!(join_name("\u{3000}\t\u{a0}".to_string()), "guest");
    assert_eq!(join_name("\u{200b}".to_string()), "\u{200b}");
}

#[test]
fn player_events_are_not_echoed() {
    let until = suppress_until(10_000);
    assert_eq!(report_event(PlayerEvent::Play, 10_699, until, 5), None);
    assert_eq!(report_event(PlayerEvent::Play, 10_700, until, 5), Some(ClientMsg::Play { at: 5 }));
    assert_eq!(report_event(PlayerEvent::Pause, 20_000, until, 6), Some(ClientMsg::Pause { at: 6 }));
    assert_eq!(report_event(PlayerEvent::Seeked, 20_000, until, 7), Some(ClientMsg::Seek { to: 7 }));
}

#[test]
fn join_guard_and_reconnect() {
    assert!(may_join(false));
    assert!(!may_join(true));
    assert_eq!(reconnect_delay(true), Some(RECONNECT_DELAY_MS));
    assert_eq!(RECONNECT_DELAY_MS, 1000);
    assert_eq!(reconnect_delay(false), None);
}
