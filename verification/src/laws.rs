//! Properties of the room registry, the playback model and the session that
//! span operations or hold of every input.

use crate::client::{
    first_video, switch_to,
    event_msg, react, report_spec, suppress_deadline, without, PlayerEvent, ReactionView,
    RosterView, SUPPRESS_MS,
};
use crate::ids::{hex_char, hex_of};
use crate::playback::{advance, extrapolate, starting, state_msg, PlaybackView};
use crate::media::readable;
use crate::protocol::{ClientMsgView, DeliveryView, PeerView, ServerMsgView, SignalKind, Video, VideoView};
use crate::rooms::{
    control_spec, fan_out, has_peer, has_room, heartbeat_spec, join_spec, leave_spec,
    lemma_control_keeps_wf, lemma_join_keeps_wf, lemma_leave_keeps_wf, lemma_peer_index,
    lemma_remove, lemma_room_index, lemma_upsert, peer_index, registry_wf, relay_spec,
    remove_peer, room_beat, room_index, unique_peer_ids, upsert_peer, ControlView, RoomView,
};
use crate::session::{close_spec, handle_spec, OutcomeView, SessionView};
use vstd::prelude::*;

verus! {

/// After a join, the room exists and the joiner is in it; the joiner is told
/// who was there before and gets the room's `State`, and each peer already
/// there is told of the joiner, nobody else.
pub proof fn law_join_admits(
    rooms: Seq<RoomView>,
    room: Seq<char>,
    id: Seq<char>,
    name: Seq<char>,
    now: i64,
)
    requires
        registry_wf(rooms),
    ensures
        ({
            let (after, to_joiner, to_peers) = join_spec(rooms, room, id, name, now);
            let before_peers = if has_room(rooms, room) {
                rooms[room_index(rooms, room)].peers
            } else {
                Seq::empty()
            };
            &&& registry_wf(after)
            &&& has_room(after, room)
            &&& has_peer(after[room_index(after, room)].peers, id)
            &&& to_joiner.len() == 2
            &&& to_joiner[0] == (ServerMsgView::Welcome { you: id, peers: before_peers })
            &&& to_joiner[1] == state_msg(
                if has_room(rooms, room) { rooms[room_index(rooms, room)].state } else { starting(now) },
                now,
            )
            &&& to_peers.len() == before_peers.len()
            &&& forall|k: int|
                0 <= k < to_peers.len() ==> #[trigger] to_peers[k] == (DeliveryView {
                    room,
                    to: before_peers[k].id,
                    msg: ServerMsgView::PeerJoined { peer: PeerView { id, name } },
                })
        }),
{
    let (after, to_joiner, to_peers) = join_spec(rooms, room, id, name, now);
    if has_room(rooms, room) {
        let i = room_index(rooms, room);
        lemma_upsert(rooms[i].peers, id, name);
        assert(after[i].id == room);
        lemma_join_keeps_wf(rooms, room, id, name, now);
        lemma_room_index(after, i);
    } else {
        let i = rooms.len() as int;
        lemma_join_keeps_wf(rooms, room, id, name, now);
        assert(after[i].id == room);
        lemma_room_index(after, i);
        assert(after[i].peers[0].id == id);
    }
}

/// After a leave the peer is no longer in the room; the room is dropped
/// exactly when the peer was the last one in it; everyone who remains, and
/// nobody else, is told.
pub proof fn law_leave_removes(rooms: Seq<RoomView>, room: Seq<char>, id: Seq<char>)
    requires
        registry_wf(rooms),
        has_room(rooms, room),
    ensures
        ({
            let (after, sent) = leave_spec(rooms, room, id);
            let before = rooms[room_index(rooms, room)].peers;
            let rest = remove_peer(before, id);
            &&& (has_room(after, room) <==> rest.len() > 0)
            &&& has_room(after, room) ==> !has_peer(after[room_index(after, room)].peers, id)
            &&& has_room(after, room) ==> after[room_index(after, room)].peers == rest
            &&& sent == fan_out(room, rest, ServerMsgView::PeerLeft { id })
            &&& (!has_room(after, room) <==> (before.len() == 1 && before[0].id == id))
        }),
{
    let (after, sent) = leave_spec(rooms, room, id);
    let i = room_index(rooms, room);
    let before = rooms[i].peers;
    lemma_remove(before, id);
    let rest = remove_peer(before, id);
    if rest.len() > 0 {
        assert(after[i].id == room);
        lemma_leave_keeps_wf(rooms, room, id);
        lemma_room_index(after, i);
    } else {
        assert forall|a: int| 0 <= a < after.len() implies #[trigger] after[a].id != room by {
            if a < i {
                assert(after[a] == rooms[a]);
            } else {
                assert(after[a] == rooms[a + 1]);
            }
        }
    }
    if before.len() == 1 && before[0].id == id {
        lemma_peer_index(before, 0);
    }
    if rest.len() == 0 {
        if !has_peer(before, id) {
            assert(false);
        }
        let j = peer_index(before, id);
        assert(before[j].id == id);
    }
}

/// A peer who joins a room it was not in and then leaves it leaves the
/// registry exactly as it found it.
pub proof fn law_leave_undoes_join(
    rooms: Seq<RoomView>,
    room: Seq<char>,
    id: Seq<char>,
    name: Seq<char>,
    now: i64,
)
    requires
        registry_wf(rooms),
        !(has_room(rooms, room) && has_peer(rooms[room_index(rooms, room)].peers, id)),
    ensures
        leave_spec(join_spec(rooms, room, id, name, now).0, room, id).0 == rooms,
{
    let after = join_spec(rooms, room, id, name, now).0;
    lemma_join_keeps_wf(rooms, room, id, name, now);
    if has_room(rooms, room) {
        let i = room_index(rooms, room);
        let ps = rooms[i].peers;
        let q = upsert_peer(ps, id, name);
        assert(q == ps.push(PeerView { id, name }));
        assert(after[i].id == room);
        lemma_room_index(after, i);
        lemma_peer_index(q, ps.len() as int);
        assert(q[ps.len() as int].id == id);
        assert(remove_peer(q, id) =~= ps);
        let back = leave_spec(after, room, id).0;
        assert(back =~= rooms);
    } else {
        let n = rooms.len() as int;
        assert(after[n].id == room);
        lemma_room_index(after, n);
        let q = after[n].peers;
        lemma_peer_index(q, 0);
        assert(remove_peer(q, id).len() == 0);
        let back = leave_spec(after, room, id).0;
        assert(back =~= rooms);
    }
}

/// A control action on a room reaches everyone in it and no one else, and
/// every message carries the same `State`: the new anchor at server time
/// `now`. The room's peers and code do not change.
pub proof fn law_control_broadcasts(rooms: Seq<RoomView>, room: Seq<char>, c: ControlView, now: i64)
    requires
        registry_wf(rooms),
        has_room(rooms, room),
    ensures
        ({
            let (after, sent) = control_spec(rooms, room, c, now);
            let i = room_index(rooms, room);
            &&& registry_wf(after)
            &&& after.len() == rooms.len()
            &&& after[i].peers == rooms[i].peers
            &&& after[i].id == room
            &&& forall|k: int| 0 <= k < after.len() && k != i ==> after[k] == rooms[k]
            &&& sent.len() == rooms[i].peers.len()
            &&& forall|k: int|
                0 <= k < sent.len() ==> #[trigger] sent[k].to == rooms[i].peers[k].id && sent[k].room
                    == room && sent[k].msg
                    == state_msg(after[i].state, now)
        }),
{
    lemma_control_keeps_wf(rooms, room, c, now);
}

/// A control action on a room that does not exist changes nothing and sends
/// nothing.
pub proof fn law_control_missing_room(rooms: Seq<RoomView>, room: Seq<char>, c: ControlView, now: i64)
    requires
        !has_room(rooms, room),
    ensures
        control_spec(rooms, room, c, now) == (rooms, Seq::<DeliveryView>::empty()),
{
}

/// Play, pause and seek report back the position they set: the broadcast
/// `State` carries `at` (or `to`) as its position and `now` as its server
/// time; switching videos reports position 0, paused, on the new video.
pub proof fn law_control_reports_anchor(p: PlaybackView, c: ControlView, now: i64)
    ensures
        ({
            let s = crate::rooms::next_state(p, c, now);
            let m = state_msg(s, now);
            &&& m matches ServerMsgView::State { server_time, .. } && server_time == now
            &&& c matches ControlView::Play { playing, at } ==> m == (ServerMsgView::State {
                playing,
                position: at,
                server_time: now,
                rate: p.rate,
                video_id: p.video_id,
            })
            &&& c matches ControlView::Seek { to } ==> m == (ServerMsgView::State {
                playing: p.playing,
                position: to,
                server_time: now,
                rate: p.rate,
                video_id: p.video_id,
            })
            &&& c matches ControlView::Load { video_id } ==> m == (ServerMsgView::State {
                playing: false,
                position: 0,
                server_time: now,
                rate: p.rate,
                video_id: Some(video_id),
            })
        }),
{
    assert(advance(0, p.rate as int) == 0);
}

/// While paused the position stands still: every `State` reports the
/// anchor, whatever the server time.
pub proof fn law_paused_stands_still(p: PlaybackView, t: i64)
    requires
        !p.playing,
    ensures
        state_msg(p, t) matches ServerMsgView::State { position, .. } && position == p.position,
{
}

/// While playing at normal speed, the server's `State` at a later time `t2`
/// is what a client extrapolates from the `State` at `t1`:
/// position + (t2 - t1), as long as the positions stay within `i64`.
pub proof fn law_client_extrapolation_agrees(p: PlaybackView, t1: i64, t2: i64)
    requires
        p.playing,
        p.rate == 1000,
        i64::MIN <= extrapolate(p, t1) <= i64::MAX,
        i64::MIN <= extrapolate(p, t2) <= i64::MAX,
    ensures
        ({
            let m1 = state_msg(p, t1);
            let m2 = state_msg(p, t2);
            m1 matches ServerMsgView::State { position: x1, server_time: s1, .. } && m2 matches ServerMsgView::State { position: x2, server_time: s2, .. } && x2 == x1 + (s2 - s1)
        }),
{
    assert(advance(t1 - p.updated_at, 1000) == t1 - p.updated_at) by (nonlinear_arith);
    assert(advance(t2 - p.updated_at, 1000) == t2 - p.updated_at) by (nonlinear_arith);
}

/// A fresh room starts paused at position 0 on no video, at normal speed.
pub proof fn law_fresh_room(now: i64, t: i64)
    ensures
        state_msg(starting(now), t) == (ServerMsgView::State {
            playing: false,
            position: 0,
            server_time: t,
            rate: 1000,
            video_id: None,
        }),
{
}

/// A relay never changes the rooms and sends at most one message, addressed
/// to `to` and attributed to `from`, and only when `to` is in the room.
pub proof fn law_relay_targets_one(
    rooms: Seq<RoomView>,
    room: Seq<char>,
    from: Seq<char>,
    to: Seq<char>,
    kind: SignalKind,
    payload: Seq<char>,
)
    ensures
        ({
            let sent = relay_spec(rooms, room, from, to, kind, payload);
            &&& sent.len() <= 1
            &&& sent.len() == 1 <==> (has_room(rooms, room) && has_peer(
                rooms[room_index(rooms, room)].peers,
                to,
            ))
            &&& sent.len() == 1 ==> sent[0] == (DeliveryView {
                room,
                to,
                msg: ServerMsgView::Signal { from, kind, payload },
            })
        }),
{
}

/// The heartbeat sends only `State` messages, only to peers of playing
/// rooms: when no room is playing it sends nothing.
pub proof fn law_heartbeat_quiet_when_paused(rooms: Seq<RoomView>, now: i64)
    requires
        forall|i: int| 0 <= i < rooms.len() ==> !(#[trigger] rooms[i]).state.playing,
    ensures
        heartbeat_spec(rooms, now) == Seq::<DeliveryView>::empty(),
    decreases rooms.len(),
{
    if rooms.len() > 0 {
        let init = rooms.drop_last();
        assert forall|i: int| 0 <= i < init.len() implies !(#[trigger] init[i]).state.playing by {
            assert(init[i] == rooms[i]);
        }
        law_heartbeat_quiet_when_paused(init, now);
        assert(!rooms[rooms.len() - 1].state.playing);
        assert(heartbeat_spec(rooms, now) =~= Seq::<DeliveryView>::empty());
    }
}

/// Every heartbeat message is a `State` for a playing room, addressed to a
/// peer of that room.
pub proof fn law_heartbeat_targets_playing(rooms: Seq<RoomView>, now: i64, k: int)
    requires
        0 <= k < heartbeat_spec(rooms, now).len(),
    ensures
        exists|i: int, j: int|
            0 <= i < rooms.len() && rooms[i].state.playing && 0 <= j < rooms[i].peers.len()
                && #[trigger] heartbeat_spec(rooms, now)[k] == (DeliveryView {
                room: rooms[i].id,
                to: rooms[i].peers[j].id,
                msg: state_msg(rooms[i].state, now),
            }),
    decreases rooms.len(),
{
    let hb = heartbeat_spec(rooms, now);
    let init = rooms.drop_last();
    let prev = heartbeat_spec(init, now);
    let last = rooms[rooms.len() - 1];
    if k < prev.len() {
        law_heartbeat_targets_playing(init, now, k);
        let (i, j) = choose|i: int, j: int|
            0 <= i < init.len() && init[i].state.playing && 0 <= j < init[i].peers.len()
                && #[trigger] prev[k] == (DeliveryView {
                room: init[i].id,
                to: init[i].peers[j].id,
                msg: state_msg(init[i].state, now),
            });
        assert(init[i] == rooms[i]);
        assert(hb[k] == prev[k]);
    } else {
        let j = k - prev.len();
        assert(hb[k] == room_beat(last, now)[j]);
        assert(last.state.playing);
        assert(hb[k] == (DeliveryView {
            room: rooms[rooms.len() - 1].id,
            to: rooms[rooms.len() - 1].peers[j].id,
            msg: state_msg(rooms[rooms.len() - 1].state, now),
        }));
    }
}

/// When a peer joins a room, each new pair has exactly one initiator: every
/// peer already there is told of the newcomer and offers it a call, while
/// what the newcomer is told (`Welcome`, then `State`) makes it offer to
/// nobody; it answers the offers that come.
pub proof fn law_one_initiator_per_pair(
    rooms: Seq<RoomView>,
    room: Seq<char>,
    id: Seq<char>,
    name: Seq<char>,
    now: i64,
    r: RosterView,
)
    ensures
        ({
            let (_, to_joiner, to_peers) = join_spec(rooms, room, id, name, now);
            &&& forall|k: int| 0 <= k < to_joiner.len() ==> !(#[trigger] react(r, to_joiner[k]).1 is Offer)
            &&& forall|k: int|
                0 <= k < to_peers.len() ==> #[trigger] react(r, to_peers[k].msg).1 == (ReactionView::Offer {
                    to: id,
                })
        }),
{
    let (_, to_joiner, to_peers) = join_spec(rooms, room, id, name, now);
    assert forall|k: int| 0 <= k < to_joiner.len() implies !(#[trigger] react(r, to_joiner[k]).1 is Offer) by {
        if k == 1 {
            if has_room(rooms, room) {
                assert(to_joiner[1] == state_msg(rooms[room_index(rooms, room)].state, now));
            } else {
                assert(to_joiner[1] == state_msg(starting(now), now));
            }
        }
    }
}

/// No echo of server-driven changes: after a server `State` is applied at
/// `applied` (ms), a player event at `t` sends nothing while
/// `t < applied + 700`, and from then on exactly the matching control
/// message at the player's position `c`; as long as `applied + 700` is an
/// `i64`.
pub proof fn law_no_echo(event: PlayerEvent, applied: i64, t: i64, c: i64)
    requires
        applied + SUPPRESS_MS <= i64::MAX,
    ensures
        report_spec(event, t, suppress_deadline(applied), c) == if t < applied + SUPPRESS_MS {
            None
        } else {
            Some(event_msg(event, c))
        },
{
}

/// Two different nibbles have different hex digits.
pub proof fn lemma_hex_char_injective(x: int, y: int)
    requires
        0 <= x < 16,
        0 <= y < 16,
        hex_char(x) == hex_char(y),
    ensures
        x == y,
{
}

/// Hex ids take two lowercase hex digits per byte, and different bytes give
/// different ids: the encoding loses nothing.
pub proof fn law_hex_faithful(a: Seq<u8>, b: Seq<u8>)
    ensures
        hex_of(a).len() == 2 * a.len(),
        forall|k: int|
            0 <= k < hex_of(a).len() ==> ('0' <= #[trigger] hex_of(a)[k] <= '9' || 'a' <= hex_of(a)[k]
                <= 'f'),
        hex_of(a) == hex_of(b) ==> a == b,
{
    if hex_of(a) == hex_of(b) {
        assert(hex_of(a).len() == hex_of(b).len());
        assert(a.len() == b.len());
        assert forall|i: int| 0 <= i < a.len() implies a[i] == b[i] by {
            let hi = 2 * i;
            let lo = 2 * i + 1;
            assert(hi / 2 == i && hi % 2 == 0);
            assert(lo / 2 == i && lo % 2 == 1);
            assert(hex_of(a)[hi] == hex_of(b)[hi]);
            assert(hex_of(a)[lo] == hex_of(b)[lo]);
            lemma_hex_char_injective((a[i] / 16) as int, (b[i] / 16) as int);
            lemma_hex_char_injective((a[i] % 16) as int, (b[i] % 16) as int);
        }
        assert(a =~= b);
    }
}

/// Before it joins, a connection's messages other than `Join` change
/// nothing and send nothing.
pub proof fn law_unjoined_ignored(rooms: Seq<RoomView>, msg: ClientMsgView, fresh: Seq<char>, now: i64)
    requires
        !(msg is Join),
    ensures
        ({
            let s = SessionView { peer_id: None, room: None };
            handle_spec(s, rooms, msg, fresh, now) == (
                s,
                rooms,
                OutcomeView::Sent { deliveries: Seq::empty() },
            )
        }),
{
}

/// A `Join` binds the connection to its room under the fresh id, and every
/// later control message from it acts on that room.
pub proof fn law_join_binds_session(
    s: SessionView,
    rooms: Seq<RoomView>,
    room: Seq<char>,
    name: Seq<char>,
    video_id: Option<Seq<char>>,
    fresh: Seq<char>,
    now: i64,
    c: ClientMsgView,
    later: i64,
)
    requires
        !(c is Join),
        !(c is Signal),
    ensures
        ({
            let (s2, rooms2, out) = handle_spec(
                s,
                rooms,
                ClientMsgView::Join { room, name, video_id },
                fresh,
                now,
            );
            let (s3, rooms3, out3) = handle_spec(s2, rooms2, c, fresh, later);
            &&& s2 == (SessionView { peer_id: Some(fresh), room: Some(room) })
            &&& out is Joined
            &&& s3 == s2
            &&& (rooms3, out3->deliveries) == control_spec(
                rooms2,
                room,
                match c {
                    ClientMsgView::Play { at } => ControlView::Play { playing: true, at },
                    ClientMsgView::Pause { at } => ControlView::Play { playing: false, at },
                    ClientMsgView::Seek { to } => ControlView::Seek { to },
                    ClientMsgView::LoadVideo { video_id } => ControlView::Load { video_id },
                    _ => ControlView::Seek { to: 0 },
                },
                later,
            )
        }),
{
}

/// A connection that joins a room under a fresh id and then closes leaves
/// the rooms as it found them.
pub proof fn law_close_undoes_join(
    rooms: Seq<RoomView>,
    room: Seq<char>,
    name: Seq<char>,
    video_id: Option<Seq<char>>,
    fresh: Seq<char>,
    now: i64,
)
    requires
        registry_wf(rooms),
        !(has_room(rooms, room) && has_peer(rooms[room_index(rooms, room)].peers, fresh)),
    ensures
        ({
            let (s2, rooms2, _) = handle_spec(
                SessionView { peer_id: None, room: None },
                rooms,
                ClientMsgView::Join { room, name, video_id },
                fresh,
                now,
            );
            close_spec(s2, rooms2).0 == rooms
        }),
{
    law_leave_undoes_join(rooms, room, fresh, name, now);
}

/// The client's peer list never lists an id twice: a `PeerJoined` for a
/// listed id changes nothing, and a `PeerLeft` removes every entry with the
/// id and keeps the rest in order.
pub proof fn law_client_peers_unique(ps: Seq<PeerView>, p: PeerView, id: Seq<char>)
    requires
        unique_peer_ids(ps),
    ensures
        unique_peer_ids(if has_peer(ps, p.id) { ps } else { ps.push(p) }),
        unique_peer_ids(without(ps, id)),
        !has_peer(without(ps, id), id),
    decreases ps.len(),
{
    if !has_peer(ps, p.id) {
        let q = ps.push(p);
        assert forall|a: int, b: int|
            0 <= a < q.len() && 0 <= b < q.len() && a != b implies #[trigger] q[a].id
            != #[trigger] q[b].id by {
            if a == ps.len() {
                assert(ps[b].id == ps[b].id);
            } else if b == ps.len() {
                assert(ps[a].id == ps[a].id);
            }
        }
    }
    lemma_without(ps, id);
}

/// `without` keeps only entries of `ps`, keeps their order, and drops `id`.
pub proof fn lemma_without(ps: Seq<PeerView>, id: Seq<char>)
    requires
        unique_peer_ids(ps),
    ensures
        unique_peer_ids(without(ps, id)),
        !has_peer(without(ps, id), id),
        forall|x: PeerView| without(ps, id).contains(x) ==> ps.contains(x),
    decreases ps.len(),
{
    if ps.len() > 0 {
        let init = ps.drop_last();
        assert forall|a: int, b: int|
            0 <= a < init.len() && 0 <= b < init.len() && a != b implies #[trigger] init[a].id
            != #[trigger] init[b].id by {
            assert(ps[a].id != ps[b].id);
        }
        lemma_without(init, id);
        let w = without(init, id);
        if ps.last().id != id {
            let q = w.push(ps.last());
            assert forall|x: PeerView| q.contains(x) implies ps.contains(x) by {
                if x != ps.last() {
                    let k = choose|k: int| 0 <= k < q.len() && q[k] == x;
                    assert(w.contains(x));
                    assert(init.contains(x));
                    let m = choose|m: int| 0 <= m < init.len() && init[m] == x;
                    assert(ps[m] == x);
                } else {
                    assert(ps[ps.len() - 1] == x);
                }
            }
            assert forall|a: int, b: int|
                0 <= a < q.len() && 0 <= b < q.len() && a != b implies #[trigger] q[a].id
                != #[trigger] q[b].id by {
                if a == w.len() && b < w.len() {
                    assert(w.contains(w[b]));
                    assert(init.contains(w[b]));
                    let m = choose|m: int| 0 <= m < init.len() && init[m] == w[b];
                    assert(ps[m].id != ps[ps.len() - 1].id);
                } else if b == w.len() && a < w.len() {
                    assert(w.contains(w[a]));
                    assert(init.contains(w[a]));
                    let m = choose|m: int| 0 <= m < init.len() && init[m] == w[a];
                    assert(ps[m].id != ps[ps.len() - 1].id);
                }
            }
            assert forall|j: int| 0 <= j < q.len() implies #[trigger] q[j].id != id by {
                if j < w.len() {
                    assert(w[j].id != id);
                }
            }
        } else {
            assert forall|x: PeerView| w.contains(x) implies ps.contains(x) by {
                assert(init.contains(x));
                let m = choose|m: int| 0 <= m < init.len() && init[m] == x;
                assert(ps[m] == x);
            }
        }
    }
}

/// The entries of a room other than peer `id`.
pub open spec fn other_than(id: Seq<char>) -> spec_fn(PeerView) -> bool {
    |p: PeerView| p.id != id
}

/// After a leave every other room is still there, unchanged, and nothing
/// else is: one room fewer exactly when the leaver was the last one in its
/// room. The room left keeps exactly its other peers.
pub proof fn law_leave_keeps_other_rooms(rooms: Seq<RoomView>, room: Seq<char>, id: Seq<char>)
    requires
        registry_wf(rooms),
    ensures
        ({
            let after = leave_spec(rooms, room, id).0;
            let emptied = has_room(rooms, room) && rooms[room_index(rooms, room)].peers.len() == 1
                && rooms[room_index(rooms, room)].peers[0].id == id;
            &&& forall|k: int|
                0 <= k < rooms.len() && rooms[k].id != room ==> #[trigger] after.contains(rooms[k])
            &&& forall|x: RoomView| #[trigger] after.contains(x) && x.id != room ==> rooms.contains(x)
            &&& after.len() == if emptied { rooms.len() - 1 } else { rooms.len() as int }
            &&& has_room(after, room) ==> forall|x: PeerView|
                #[trigger] after[room_index(after, room)].peers.contains(x) <==> (rooms[room_index(
                    rooms,
                    room,
                )].peers.contains(x) && x.id != id)
        }),
{
    let after = leave_spec(rooms, room, id).0;
    if has_room(rooms, room) {
        law_leave_removes(rooms, room, id);
        let i = room_index(rooms, room);
        let before = rooms[i].peers;
        lemma_remove(before, id);
        let rest = remove_peer(before, id);
        assert forall|x: PeerView| #[trigger] rest.contains(x) <==> (before.contains(x) && x.id != id) by {
            if has_peer(before, id) {
                let j = peer_index(before, id);
                if rest.contains(x) {
                    let m = choose|m: int| 0 <= m < rest.len() && rest[m] == x;
                    let m2 = if m < j { m } else { m + 1 };
                    assert(before[m2] == x);
                    assert(x.id != id);
                }
                if before.contains(x) && x.id != id {
                    let m = choose|m: int| 0 <= m < before.len() && before[m] == x;
                    assert(m != j);
                    let m2 = if m < j { m } else { m - 1 };
                    assert(rest[m2] == x);
                }
            } else {
                if rest.contains(x) {
                    let m = choose|m: int| 0 <= m < rest.len() && rest[m] == x;
                    assert(before[m].id != id);
                }
            }
        }
        if rest.len() == 0 {
            assert forall|k: int| 0 <= k < rooms.len() && rooms[k].id != room implies #[trigger] after.contains(
                rooms[k],
            ) by {
                assert(k != i);
                if k < i {
                    assert(after[k] == rooms[k]);
                } else {
                    assert(after[k - 1] == rooms[k]);
                }
            }
            assert forall|x: RoomView| #[trigger] after.contains(x) && x.id != room implies rooms.contains(x) by {
                let m = choose|m: int| 0 <= m < after.len() && after[m] == x;
                if m < i {
                    assert(rooms[m] == x);
                } else {
                    assert(rooms[m + 1] == x);
                }
            }
        } else {
            assert forall|k: int| 0 <= k < rooms.len() && rooms[k].id != room implies #[trigger] after.contains(
                rooms[k],
            ) by {
                assert(k != i);
                assert(after[k] == rooms[k]);
            }
            assert forall|x: RoomView| #[trigger] after.contains(x) && x.id != room implies rooms.contains(x) by {
                let m = choose|m: int| 0 <= m < after.len() && after[m] == x;
                assert(m != i);
                assert(rooms[m] == x);
            }
            lemma_leave_keeps_wf(rooms, room, id);
            assert(after[i].id == room);
            lemma_room_index(after, i);
        }
    } else {
        assert forall|k: int| 0 <= k < rooms.len() && rooms[k].id != room implies #[trigger] after.contains(
            rooms[k],
        ) by {
            assert(after[k] == rooms[k]);
        }
    }
}

/// After a join every other room is unchanged, and the registry grows by one
/// room exactly when the room was new. In an existing room the joiner is
/// appended when its id was not listed; otherwise the entry with its id is
/// renamed and every other entry stays.
pub proof fn law_join_keeps_other_rooms(
    rooms: Seq<RoomView>,
    room: Seq<char>,
    id: Seq<char>,
    name: Seq<char>,
    now: i64,
)
    requires
        registry_wf(rooms),
    ensures
        ({
            let after = join_spec(rooms, room, id, name, now).0;
            &&& forall|k: int| 0 <= k < rooms.len() && rooms[k].id != room ==> #[trigger] after[k] == rooms[k]
            &&& after.len() == if has_room(rooms, room) { rooms.len() as int } else { rooms.len() + 1int }
            &&& has_room(rooms, room) && !has_peer(rooms[room_index(rooms, room)].peers, id) ==> after[room_index(
                rooms,
                room,
            )].peers == rooms[room_index(rooms, room)].peers.push(PeerView { id, name })
            &&& has_room(rooms, room) && has_peer(rooms[room_index(rooms, room)].peers, id) ==> {
                let before = rooms[room_index(rooms, room)].peers;
                let now_peers = after[room_index(rooms, room)].peers;
                &&& now_peers.len() == before.len()
                &&& forall|j: int|
                    0 <= j < before.len() ==> #[trigger] now_peers[j] == if before[j].id == id {
                        PeerView { id, name }
                    } else {
                        before[j]
                    }
            }
        }),
{
    if has_room(rooms, room) {
        let i = room_index(rooms, room);
        let before = rooms[i].peers;
        assert forall|k: int| 0 <= k < rooms.len() && rooms[k].id != room implies #[trigger] join_spec(
            rooms,
            room,
            id,
            name,
            now,
        ).0[k] == rooms[k] by {
            assert(k != i);
        }
        if has_peer(before, id) {
            let j0 = peer_index(before, id);
            assert forall|j: int| 0 <= j < before.len() && before[j].id == id implies j == j0 by {
                assert(before[j0].id == id);
            }
        }
    }
}

/// The number of peers in playing rooms.
pub open spec fn audience(rooms: Seq<RoomView>) -> nat
    decreases rooms.len(),
{
    if rooms.len() == 0 {
        0
    } else {
        audience(rooms.drop_last()) + if rooms.last().state.playing {
            rooms.last().peers.len()
        } else {
            0
        }
    }
}

/// The heartbeat reaches everyone in every playing room: each such peer gets
/// its room's `State`, and there is one message per such peer.
pub proof fn law_heartbeat_reaches_everyone(rooms: Seq<RoomView>, now: i64)
    ensures
        heartbeat_spec(rooms, now).len() == audience(rooms),
        forall|i: int, j: int|
            #![trigger rooms[i].peers[j]]
            0 <= i < rooms.len() && rooms[i].state.playing && 0 <= j < rooms[i].peers.len()
                ==> heartbeat_spec(rooms, now).contains(
                DeliveryView {
                    room: rooms[i].id,
                    to: rooms[i].peers[j].id,
                    msg: state_msg(rooms[i].state, now),
                },
            ),
    decreases rooms.len(),
{
    if rooms.len() > 0 {
        let n = rooms.len() as int;
        let init = rooms.drop_last();
        law_heartbeat_reaches_everyone(init, now);
        let prev = heartbeat_spec(init, now);
        let last = rooms[n - 1];
        let beat = room_beat(last, now);
        let hb = heartbeat_spec(rooms, now);
        assert(hb == prev + beat);
        assert forall|i: int, j: int|
            #![trigger rooms[i].peers[j]]
            0 <= i < rooms.len() && rooms[i].state.playing && 0 <= j < rooms[i].peers.len()
                implies hb.contains(
                DeliveryView {
                    room: rooms[i].id,
                    to: rooms[i].peers[j].id,
                    msg: state_msg(rooms[i].state, now),
                },
            ) by {
            let d = DeliveryView {
                room: rooms[i].id,
                to: rooms[i].peers[j].id,
                msg: state_msg(rooms[i].state, now),
            };
            if i < n - 1 {
                assert(init[i] == rooms[i]);
                assert(init[i].peers[j] == rooms[i].peers[j]);
                assert(prev.contains(d));
                let m = choose|m: int| 0 <= m < prev.len() && prev[m] == d;
                assert(hb[m] == d);
            } else {
                assert(beat[j] == d);
                assert(hb[prev.len() + j] == d);
            }
        }
    }
}

/// A `Join` on a connection answers with `Joined` under the fresh id: the
/// joiner is welcomed with the peers already in the room and gets the
/// room's `State` (a fresh room's when it was new), and each of them,
/// in order and no one else, is told `PeerJoined`.
pub proof fn law_session_join_announces(
    s: SessionView,
    rooms: Seq<RoomView>,
    room: Seq<char>,
    name: Seq<char>,
    video_id: Option<Seq<char>>,
    fresh: Seq<char>,
    now: i64,
)
    ensures
        ({
            let out = handle_spec(s, rooms, ClientMsgView::Join { room, name, video_id }, fresh, now).2;
            let before = if has_room(rooms, room) {
                rooms[room_index(rooms, room)].peers
            } else {
                Seq::<PeerView>::empty()
            };
            &&& out matches OutcomeView::Joined { id: jid, to_joiner, to_peers } && jid == fresh
                && to_joiner.len() == 2 && to_joiner[0] == (ServerMsgView::Welcome {
                you: fresh,
                peers: before,
            }) && to_joiner[1] == state_msg(
                if has_room(rooms, room) { rooms[room_index(rooms, room)].state } else { starting(now) },
                now,
            ) && to_peers.len() == before.len() && forall|k: int|
                0 <= k < to_peers.len() ==> #[trigger] to_peers[k] == (DeliveryView {
                    room,
                    to: before[k].id,
                    msg: ServerMsgView::PeerJoined { peer: PeerView { id: fresh, name } },
                })
        }),
{
}

/// A `PeerLeft` keeps every other entry of the client's list, in order:
/// the list becomes its entries whose id differs from the one that left.
pub proof fn law_peer_left_keeps_others(ps: Seq<PeerView>, id: Seq<char>)
    ensures
        without(ps, id) == ps.filter(other_than(id)),
        forall|x: PeerView| ps.contains(x) && x.id != id ==> #[trigger] without(ps, id).contains(x),
    decreases ps.len(),
{
    reveal(Seq::filter);
    if ps.len() > 0 {
        law_peer_left_keeps_others(ps.drop_last(), id);
    }
    assert forall|x: PeerView| ps.contains(x) && x.id != id implies #[trigger] without(ps, id).contains(x) by {
        let m = choose|m: int| 0 <= m < ps.len() && ps[m] == x;
        ps.lemma_filter_contains(other_than(id), m);
    }
}

/// `first_video` finds the first entry with the id.
pub proof fn lemma_first_video_at(vs: Seq<VideoView>, id: Seq<char>, m: int)
    requires
        0 <= m < vs.len(),
        vs[m].id == id,
        forall|j: int| 0 <= j < m ==> vs[j].id != id,
    ensures
        first_video(vs, id) == Some(vs[m]),
    decreases m,
{
    if m > 0 {
        let rest = vs.drop_first();
        assert(vs[0].id != id);
        assert forall|j: int| 0 <= j < m - 1 implies rest[j].id != id by {
            assert(rest[j] == vs[j + 1]);
        }
        lemma_first_video_at(rest, id, m - 1);
    }
}

/// `first_video` finds nothing when no entry has the id.
pub proof fn lemma_first_video_none(vs: Seq<VideoView>, id: Seq<char>)
    requires
        forall|k: int| 0 <= k < vs.len() ==> vs[k].id != id,
    ensures
        first_video(vs, id) is None,
    decreases vs.len(),
{
    if vs.len() > 0 {
        let rest = vs.drop_first();
        assert(vs[0].id != id);
        assert forall|k: int| 0 <= k < rest.len() implies rest[k].id != id by {
            assert(rest[k] == vs[k + 1]);
        }
        lemma_first_video_none(rest, id);
    }
}

/// A `State` naming a video other than the one showing switches the player
/// to the first library entry with that id, searching the whole library.
pub proof fn law_pick_finds_first(
    current: Option<VideoView>,
    library: Seq<VideoView>,
    vid: Seq<char>,
    m: int,
)
    requires
        !(current is Some && current->0.id == vid),
        0 <= m < library.len(),
        library[m].id == vid,
        forall|j: int| 0 <= j < m ==> library[j].id != vid,
    ensures
        switch_to(current, library, Some(vid)) == Some(library[m]),
{
    lemma_first_video_at(library, vid, m);
}

/// The player does not switch when the state names no video, names the one
/// showing, or names one the library lacks.
pub proof fn law_pick_stays(current: Option<VideoView>, library: Seq<VideoView>, target: Option<Seq<char>>)
    requires
        target is None || (current is Some && current->0.id == target->0) || forall|k: int|
            0 <= k < library.len() ==> library[k].id != target->0,
    ensures
        switch_to(current, library, target) is None,
{
    if target is Some && !(current is Some && current->0.id == target->0) {
        lemma_first_video_none(library, target->0);
    }
}

/// Is this library row readable?
pub open spec fn is_row(o: Option<Video>) -> bool {
    o is Some
}

/// The library listing keeps exactly the readable rows, in order.
pub proof fn law_listing_keeps_readable_rows(rows: Seq<Option<Video>>)
    ensures
        readable(rows) == rows.filter(|o: Option<Video>| is_row(o)).map_values(
            |o: Option<Video>| o->0@,
        ),
    decreases rows.len(),
{
    reveal(Seq::filter);
    if rows.len() > 0 {
        let init = rows.drop_last();
        law_listing_keeps_readable_rows(init);
        let f = |o: Option<Video>| is_row(o);
        let g = |o: Option<Video>| o->0@;
        assert(rows.filter(f) == if f(rows.last()) {
            init.filter(f).push(rows.last())
        } else {
            init.filter(f)
        });
        if f(rows.last()) {
            assert(init.filter(f).push(rows.last()).map_values(g) =~= init.filter(f).map_values(g).push(
                rows.last()->0@,
            ));
        }
    }
}

} // verus!
