use watchparty::playback::{Playback, NORMAL_RATE};
use watchparty::protocol::ServerMsg;

fn anchor(playing: bool, position: i64, updated_at: i64, rate: u32) -> Playback {
    Playback { playing, position, updated_at, rate, video_id: None }
}

#[test]
fn paused_position_stands_still() {
    let p = anchor(false, 42, 0, NORMAL_RATE);
    assert_eq!(p.current_position(0), 42);
    assert_eq!(p.current_position(1_000_000_000), 42);
}

#[test]
fn playing_position_moves_with_time() {
    let p = anchor(true, 1_000_000, 10_000_000, NORMAL_RATE);
    assert_eq!(p.current_position(10_000_000), 1_000_000);
    assert_eq!(p.current_position(12_500_000), 3_500_000);
}

#[test]
fn playing_at_other_rates() {
    let p = anchor(true, 0, 0, 1500);
    assert_eq!(p.current_position(2_000_000), 3_000_000);
    let p = anchor(true, 0, 0, 500);
    assert_eq!(p.current_position(3), 1);
}

#[test]
fn clock_going_backwards_rounds_toward_zero() {
    let p = anchor(true, 10, 100, 1500);
    assert_eq!(p.current_position(99), 9);
    assert_eq!(p.current_position(97), 6);
}

#[test]
fn extreme_values_are_held_within_range() {
    let p = anchor(true, i64::MAX - 1, i64::MIN, NORMAL_RATE);
    assert_eq!(p.current_position(i64::MAX), i64::MAX);
    let p = anchor(true, i64::MIN + 1, i64::MAX, u32::MAX);
    assert_eq!(p.current_position(i64::MIN), i64::MIN);
}

#[test]
fn client_extrapolation_agrees_with_later_state() {
    let p = anchor(true, 5_000_000, 1_000, NORMAL_RATE);
    let (x1, s1) = match p.to_state(2_000) {
        ServerMsg::State { position, server_time, .. } => (position, server_time),
        _ => unreachable!(),
    };
    let (x2, s2) = match p.to_state(9_002_000) {
        ServerMsg::State { position, server_time, .. } => (position, server_time),
        _ => unreachable!(),
    };
    assert_eq!(x2, x1 + (s2 - s1));
}

#[test]
fn controls_restamp_the_anchor() {
    let mut p = Playback::starting_at(7);
    assert_eq!(p, anchor(false, 0, 7, NORMAL_RATE));
    p.set_play(true, 100, 50);
    assert_eq!(p, anchor(true, 100, 50, NORMAL_RATE));
    p.seek(300, 60);
    assert_eq!(p, anchor(true, 300, 60, NORMAL_RATE));
    p.load_video("v1".to_string(), 70);
    assert_eq!(
        p,
        Playback { playing: false, position: 0, updated_at: 70, rate: NORMAL_RATE, video_id: Some("v1".to_string()) }
    );
    assert_eq!(
        p.to_state(1_000_000),
        ServerMsg::State {
            playing: false,
            position: 0,
            server_time: 1_000_000,
            rate: NORMAL_RATE,
            video_id: Some("v1".to_string()),
        }
    );
}
