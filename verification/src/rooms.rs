//! The room registry. Each watch party is a room holding the authoritative
//! playback state and the peers connected to it. Every operation returns the
//! messages it sends: a control action restamps the state with the server
//! clock and fans a `State` message out to everyone in the room.

use crate::clock::now_micros;
use crate::playback::{loaded, played, sought, starting, state_msg, Playback, PlaybackView};
use crate::protocol::{
    copy_msg, copy_peers, deliveries_view, msgs_view, peers_view, Delivery, DeliveryView, Peer,
    PeerId, PeerView, ServerMsg, ServerMsgView, SignalKind,
};
use vstd::prelude::*;

verus! {

/// How often (seconds) the server re-broadcasts the state of playing rooms.
pub const HEARTBEAT_SECS: u64 = 3;

/// The mathematical value of a room.
pub struct RoomView {
    pub id: Seq<char>,
    pub state: PlaybackView,
    pub peers: Seq<PeerView>,
}

/// Is there a room with code `id`?
pub open spec fn has_room(rooms: Seq<RoomView>, id: Seq<char>) -> bool {
    exists|i: int| 0 <= i < rooms.len() && #[trigger] rooms[i].id == id
}

/// The position of the room with code `id` (meaningful when `has_room`).
pub open spec fn room_index(rooms: Seq<RoomView>, id: Seq<char>) -> int {
    choose|i: int| 0 <= i < rooms.len() && #[trigger] rooms[i].id == id
}

/// Is there a peer with id `id`?
pub open spec fn has_peer(ps: Seq<PeerView>, id: Seq<char>) -> bool {
    exists|j: int| 0 <= j < ps.len() && #[trigger] ps[j].id == id
}

/// The position of the peer with id `id` (meaningful when `has_peer`).
pub open spec fn peer_index(ps: Seq<PeerView>, id: Seq<char>) -> int {
    choose|j: int| 0 <= j < ps.len() && #[trigger] ps[j].id == id
}

/// No two peers share an id.
pub open spec fn unique_peer_ids(ps: Seq<PeerView>) -> bool {
    forall|i: int, j: int|
        0 <= i < ps.len() && 0 <= j < ps.len() && i != j ==> #[trigger] ps[i].id != #[trigger] ps[j].id
}

/// No two rooms share a code.
pub open spec fn unique_room_ids(rooms: Seq<RoomView>) -> bool {
    forall|i: int, j: int|
        0 <= i < rooms.len() && 0 <= j < rooms.len() && i != j ==> #[trigger] rooms[i].id
            != #[trigger] rooms[j].id
}

/// A room holds at least one peer, and no peer twice.
pub open spec fn room_wf(r: RoomView) -> bool {
    r.peers.len() > 0 && unique_peer_ids(r.peers)
}

/// The registry's invariant: room codes are unique, and every room that
/// exists has someone in it, each peer once.
pub open spec fn registry_wf(rooms: Seq<RoomView>) -> bool {
    &&& unique_room_ids(rooms)
    &&& forall|i: int| 0 <= i < rooms.len() ==> room_wf(#[trigger] rooms[i])
}

/// `msg` addressed to each of `ps` in room `room`, in order.
pub open spec fn fan_out(room: Seq<char>, ps: Seq<PeerView>, msg: ServerMsgView) -> Seq<DeliveryView> {
    ps.map_values(|p: PeerView| DeliveryView { room, to: p.id, msg })
}

/// `ps` with the peer `id` named `name`: an existing entry with that id is
/// renamed in place, otherwise the peer is appended.
pub open spec fn upsert_peer(ps: Seq<PeerView>, id: Seq<char>, name: Seq<char>) -> Seq<PeerView> {
    if has_peer(ps, id) {
        ps.update(peer_index(ps, id), PeerView { id, name })
    } else {
        ps.push(PeerView { id, name })
    }
}

/// `ps` without the peer `id`.
pub open spec fn remove_peer(ps: Seq<PeerView>, id: Seq<char>) -> Seq<PeerView> {
    if has_peer(ps, id) {
        ps.remove(peer_index(ps, id))
    } else {
        ps
    }
}

/// What a join does: the registry after it, the messages to the joiner
/// (`Welcome` with who was already there, then the current `State`), and
/// `PeerJoined` to each peer already in the room. Joining a room nobody is in
/// opens it with a fresh state.
pub open spec fn join_spec(
    rooms: Seq<RoomView>,
    room: Seq<char>,
    id: Seq<char>,
    name: Seq<char>,
    now: i64,
) -> (Seq<RoomView>, Seq<ServerMsgView>, Seq<DeliveryView>) {
    if has_room(rooms, room) {
        let i = room_index(rooms, room);
        let r = rooms[i];
        (
            rooms.update(i, RoomView { id: r.id, state: r.state, peers: upsert_peer(r.peers, id, name) }),
            seq![ServerMsgView::Welcome { you: id, peers: r.peers }, state_msg(r.state, now)],
            fan_out(room, r.peers, ServerMsgView::PeerJoined { peer: PeerView { id, name } }),
        )
    } else {
        let s = starting(now);
        (
            rooms.push(RoomView { id: room, state: s, peers: seq![PeerView { id, name }] }),
            seq![ServerMsgView::Welcome { you: id, peers: Seq::empty() }, state_msg(s, now)],
            Seq::empty(),
        )
    }
}

/// What a leave does: the peer is removed, everyone left gets `PeerLeft`,
/// and a room left empty is dropped. Leaving a room that does not exist does
/// nothing.
pub open spec fn leave_spec(rooms: Seq<RoomView>, room: Seq<char>, id: Seq<char>) -> (
    Seq<RoomView>,
    Seq<DeliveryView>,
) {
    if has_room(rooms, room) {
        let i = room_index(rooms, room);
        let r = rooms[i];
        let rest = remove_peer(r.peers, id);
        (
            if rest.len() == 0 {
                rooms.remove(i)
            } else {
                rooms.update(i, RoomView { id: r.id, state: r.state, peers: rest })
            },
            fan_out(room, rest, ServerMsgView::PeerLeft { id }),
        )
    } else {
        (rooms, Seq::empty())
    }
}

/// A playback control action, as a value.
pub enum ControlView {
    /// Play (`playing`) or pause at `at`.
    Play { playing: bool, at: i64 },
    /// Seek to `to`.
    Seek { to: i64 },
    /// Switch to video `video_id`.
    Load { video_id: Seq<char> },
}

/// The state after control action `c` at server time `now`.
pub open spec fn next_state(p: PlaybackView, c: ControlView, now: i64) -> PlaybackView {
    match c {
        ControlView::Play { playing, at } => played(p, playing, at, now),
        ControlView::Seek { to } => sought(p, to, now),
        ControlView::Load { video_id } => loaded(p, video_id, now),
    }
}

/// What a control action does: the room's state is restamped by `c` at
/// `now` and the new `State` goes to everyone in the room. A room that does
/// not exist is left alone and nothing is sent.
pub open spec fn control_spec(rooms: Seq<RoomView>, room: Seq<char>, c: ControlView, now: i64) -> (
    Seq<RoomView>,
    Seq<DeliveryView>,
) {
    if has_room(rooms, room) {
        let i = room_index(rooms, room);
        let r = rooms[i];
        let s = next_state(r.state, c, now);
        (
            rooms.update(i, RoomView { id: r.id, state: s, peers: r.peers }),
            fan_out(room, r.peers, state_msg(s, now)),
        )
    } else {
        (rooms, Seq::empty())
    }
}

/// A signaling payload from `from` goes to peer `to` alone, if `to` is in the
/// room; otherwise nothing is sent.
pub open spec fn relay_spec(
    rooms: Seq<RoomView>,
    room: Seq<char>,
    from: Seq<char>,
    to: Seq<char>,
    kind: SignalKind,
    payload: Seq<char>,
) -> Seq<DeliveryView> {
    if has_room(rooms, room) && has_peer(rooms[room_index(rooms, room)].peers, to) {
        seq![DeliveryView { room, to, msg: ServerMsgView::Signal { from, kind, payload } }]
    } else {
        Seq::empty()
    }
}

/// The heartbeat of one room: its `State` to everyone in it while it plays.
pub open spec fn room_beat(r: RoomView, now: i64) -> Seq<DeliveryView> {
    if r.state.playing {
        fan_out(r.id, r.peers, state_msg(r.state, now))
    } else {
        Seq::empty()
    }
}

/// The heartbeat of all rooms, in order.
pub open spec fn heartbeat_spec(rooms: Seq<RoomView>, now: i64) -> Seq<DeliveryView>
    decreases rooms.len(),
{
    if rooms.len() == 0 {
        Seq::empty()
    } else {
        heartbeat_spec(rooms.drop_last(), now) + room_beat(rooms.last(), now)
    }
}

// ---------------------------------------------------------------------------
// Lemmas on the model.

/// With unique codes, the room found at `i` is the one `room_index` names.
pub proof fn lemma_room_index(rooms: Seq<RoomView>, i: int)
    requires
        unique_room_ids(rooms),
        0 <= i < rooms.len(),
    ensures
        has_room(rooms, rooms[i].id),
        room_index(rooms, rooms[i].id) == i,
{
    assert(rooms[i].id == rooms[i].id);
}

/// With unique ids, the peer found at `j` is the one `peer_index` names.
pub proof fn lemma_peer_index(ps: Seq<PeerView>, j: int)
    requires
        unique_peer_ids(ps),
        0 <= j < ps.len(),
    ensures
        has_peer(ps, ps[j].id),
        peer_index(ps, ps[j].id) == j,
{
    assert(ps[j].id == ps[j].id);
}

/// Upserting keeps ids unique, leaves at least one peer, and leaves `id` in.
pub proof fn lemma_upsert(ps: Seq<PeerView>, id: Seq<char>, name: Seq<char>)
    requires
        unique_peer_ids(ps),
    ensures
        unique_peer_ids(upsert_peer(ps, id, name)),
        upsert_peer(ps, id, name).len() > 0,
        has_peer(upsert_peer(ps, id, name), id),
{
    let q = upsert_peer(ps, id, name);
    if has_peer(ps, id) {
        let j = peer_index(ps, id);
        assert(q[j].id == id);
    } else {
        assert(q[ps.len() as int].id == id);
    }
}

/// Removing keeps ids unique and leaves `id` out.
pub proof fn lemma_remove(ps: Seq<PeerView>, id: Seq<char>)
    requires
        unique_peer_ids(ps),
    ensures
        unique_peer_ids(remove_peer(ps, id)),
        !has_peer(remove_peer(ps, id), id),
        has_peer(ps, id) ==> remove_peer(ps, id).len() == ps.len() - 1,
        !has_peer(ps, id) ==> remove_peer(ps, id) == ps,
{
    let q = remove_peer(ps, id);
    if has_peer(ps, id) {
        let j = peer_index(ps, id);
        assert forall|k: int| 0 <= k < q.len() implies #[trigger] q[k].id != id by {
            if k < j {
                assert(ps[k].id != ps[j].id);
            } else {
                assert(ps[k + 1].id != ps[j].id);
            }
        }
        assert forall|a: int, b: int|
            0 <= a < q.len() && 0 <= b < q.len() && a != b implies #[trigger] q[a].id
            != #[trigger] q[b].id by {
            let a2 = if a < j { a } else { a + 1 };
            let b2 = if b < j { b } else { b + 1 };
            assert(q[a] == ps[a2]);
            assert(q[b] == ps[b2]);
        }
    }
}

/// A join keeps the registry's invariant.
pub proof fn lemma_join_keeps_wf(
    rooms: Seq<RoomView>,
    room: Seq<char>,
    id: Seq<char>,
    name: Seq<char>,
    now: i64,
)
    requires
        registry_wf(rooms),
    ensures
        registry_wf(join_spec(rooms, room, id, name, now).0),
{
    let after = join_spec(rooms, room, id, name, now).0;
    if has_room(rooms, room) {
        let i = room_index(rooms, room);
        lemma_upsert(rooms[i].peers, id, name);
        assert forall|a: int| 0 <= a < after.len() implies room_wf(#[trigger] after[a]) by {
            if a != i {
                assert(after[a] == rooms[a]);
            }
        }
        assert forall|a: int, b: int|
            0 <= a < after.len() && 0 <= b < after.len() && a != b implies #[trigger] after[a].id
            != #[trigger] after[b].id by {
            assert(after[a].id == rooms[a].id);
            assert(after[b].id == rooms[b].id);
        }
    } else {
        let n = rooms.len() as int;
        assert forall|a: int| 0 <= a < after.len() implies room_wf(#[trigger] after[a]) by {
            if a < n {
                assert(after[a] == rooms[a]);
            }
        }
        assert forall|a: int, b: int|
            0 <= a < after.len() && 0 <= b < after.len() && a != b implies #[trigger] after[a].id
            != #[trigger] after[b].id by {
            if a < n {
                assert(after[a] == rooms[a]);
            }
            if b < n {
                assert(after[b] == rooms[b]);
            }
            if a == n {
                assert(rooms[b].id == rooms[b].id);
            }
            if b == n {
                assert(rooms[a].id == rooms[a].id);
            }
        }
    }
}

/// A leave keeps the registry's invariant.
pub proof fn lemma_leave_keeps_wf(rooms: Seq<RoomView>, room: Seq<char>, id: Seq<char>)
    requires
        registry_wf(rooms),
    ensures
        registry_wf(leave_spec(rooms, room, id).0),
{
    let after = leave_spec(rooms, room, id).0;
    if has_room(rooms, room) {
        let i = room_index(rooms, room);
        lemma_remove(rooms[i].peers, id);
        let rest = remove_peer(rooms[i].peers, id);
        if rest.len() == 0 {
            assert forall|a: int| 0 <= a < after.len() implies room_wf(#[trigger] after[a]) by {
                if a < i {
                    assert(after[a] == rooms[a]);
                } else {
                    assert(after[a] == rooms[a + 1]);
                }
            }
            assert forall|a: int, b: int|
                0 <= a < after.len() && 0 <= b < after.len() && a != b implies #[trigger] after[a].id
                != #[trigger] after[b].id by {
                let a2 = if a < i { a } else { a + 1 };
                let b2 = if b < i { b } else { b + 1 };
                assert(after[a] == rooms[a2]);
                assert(after[b] == rooms[b2]);
            }
        } else {
            assert forall|a: int| 0 <= a < after.len() implies room_wf(#[trigger] after[a]) by {
                if a != i {
                    assert(after[a] == rooms[a]);
                }
            }
            assert forall|a: int, b: int|
                0 <= a < after.len() && 0 <= b < after.len() && a != b implies #[trigger] after[a].id
                != #[trigger] after[b].id by {
                assert(after[a].id == rooms[a].id);
                assert(after[b].id == rooms[b].id);
            }
        }
    }
}

/// A control action keeps the registry's invariant.
pub proof fn lemma_control_keeps_wf(rooms: Seq<RoomView>, room: Seq<char>, c: ControlView, now: i64)
    requires
        registry_wf(rooms),
    ensures
        registry_wf(control_spec(rooms, room, c, now).0),
{
    let after = control_spec(rooms, room, c, now).0;
    if has_room(rooms, room) {
        let i = room_index(rooms, room);
        assert forall|a: int| 0 <= a < after.len() implies room_wf(#[trigger] after[a]) by {
            if a != i {
                assert(after[a] == rooms[a]);
            }
        }
        assert forall|a: int, b: int|
            0 <= a < after.len() && 0 <= b < after.len() && a != b implies #[trigger] after[a].id
            != #[trigger] after[b].id by {
            assert(after[a].id == rooms[a].id);
            assert(after[b].id == rooms[b].id);
        }
    }
}

// ---------------------------------------------------------------------------
// Executable registry.

struct Room {
    id: String,
    state: Playback,
    peers: Vec<Peer>,
}

impl View for Room {
    type V = RoomView;

    closed spec fn view(&self) -> RoomView {
        RoomView { id: self.id@, state: self.state@, peers: peers_view(self.peers@) }
    }
}

spec fn rooms_view(rooms: Seq<Room>) -> Seq<RoomView> {
    rooms.map_values(|r: Room| r@)
}

/// A playback control action.
enum Control {
    Play { playing: bool, at: i64 },
    Seek { to: i64 },
    Load { video_id: String },
}

impl View for Control {
    type V = ControlView;

    closed spec fn view(&self) -> ControlView {
        match self {
            Control::Play { playing, at } => ControlView::Play { playing: *playing, at: *at },
            Control::Seek { to } => ControlView::Seek { to: *to },
            Control::Load { video_id } => ControlView::Load { video_id: video_id@ },
        }
    }
}

/// All watch-party rooms.
pub struct RoomRegistry {
    rooms: Vec<Room>,
}

impl View for RoomRegistry {
    type V = Seq<RoomView>;

    closed spec fn view(&self) -> Seq<RoomView> {
        rooms_view(self.rooms@)
    }
}

/// `msg` addressed to each of `peers` in `room`.
fn fan_out_to(room: &String, peers: &Vec<Peer>, msg: &ServerMsg) -> (ds: Vec<Delivery>)
    ensures
        deliveries_view(ds@) == fan_out(room@, peers_view(peers@), msg@),
{
    let mut ds: Vec<Delivery> = Vec::new();
    let n = peers.len();
    for i in 0..n
        invariant
            n == peers@.len(),
            ds@.len() == i,
            forall|k: int|
                0 <= k < i ==> #[trigger] ds@[k]@ == (DeliveryView {
                    room: room@,
                    to: peers@[k].id@,
                    msg: msg@,
                }),
    {
        ds.push(Delivery { room: room.clone(), to: peers[i].id.clone(), msg: copy_msg(msg) });
    }
    assert(deliveries_view(ds@) =~= fan_out(room@, peers_view(peers@), msg@));
    ds
}

/// The position of the room `key`, if there is one.
fn find_room(rooms: &Vec<Room>, key: &String) -> (r: Option<usize>)
    requires
        unique_room_ids(rooms_view(rooms@)),
    ensures
        match r {
            Some(i) => i < rooms@.len() && has_room(rooms_view(rooms@), key@) && room_index(
                rooms_view(rooms@),
                key@,
            ) == i,
            None => !has_room(rooms_view(rooms@), key@),
        },
{
    let n = rooms.len();
    for i in 0..n
        invariant
            n == rooms@.len(),
            unique_room_ids(rooms_view(rooms@)),
            forall|k: int| 0 <= k < i ==> #[trigger] rooms@[k].id@ != key@,
    {
        if rooms[i].id == *key {
            proof {
                lemma_room_index(rooms_view(rooms@), i as int);
            }
            return Some(i);
        }
    }
    proof {
        if has_room(rooms_view(rooms@), key@) {
            let k = choose|k: int| 0 <= k < rooms_view(rooms@).len() && #[trigger] rooms_view(rooms@)[k].id == key@;
            assert(rooms@[k].id@ == key@);
        }
    }
    None
}

/// The position of the peer `id`, if there is one.
fn find_peer(peers: &Vec<Peer>, id: &String) -> (r: Option<usize>)
    requires
        unique_peer_ids(peers_view(peers@)),
    ensures
        match r {
            Some(j) => j < peers@.len() && has_peer(peers_view(peers@), id@) && peer_index(
                peers_view(peers@),
                id@,
            ) == j,
            None => !has_peer(peers_view(peers@), id@),
        },
{
    let n = peers.len();
    for j in 0..n
        invariant
            n == peers@.len(),
            unique_peer_ids(peers_view(peers@)),
            forall|k: int| 0 <= k < j ==> #[trigger] peers@[k].id@ != id@,
    {
        if peers[j].id == *id {
            proof {
                lemma_peer_index(peers_view(peers@), j as int);
            }
            return Some(j);
        }
    }
    proof {
        if has_peer(peers_view(peers@), id@) {
            let k = choose|k: int| 0 <= k < peers_view(peers@).len() && #[trigger] peers_view(peers@)[k].id == id@;
            assert(peers@[k].id@ == id@);
        }
    }
    None
}

impl RoomRegistry {
    #[verifier::type_invariant]
    spec fn inv(self) -> bool {
        registry_wf(rooms_view(self.rooms@))
    }

    /// The registry's invariant holds of every registry: room codes are
    /// unique and every room has someone in it, each peer once.
    pub fn wf(&self)
        ensures
            registry_wf(self@),
    {
        proof {
            use_type_invariant(self);
        }
    }

    /// An empty registry.
    pub fn new() -> (r: RoomRegistry)
        ensures
            r@ == Seq::<RoomView>::empty(),
    {
        let r = RoomRegistry { rooms: Vec::new() };
        assert(rooms_view(r.rooms@) =~= Seq::<RoomView>::empty());
        r
    }

    /// Relay a signaling payload from `from` to the one peer `to` in `room`.
    pub fn relay_signal(
        &self,
        room: &str,
        from: PeerId,
        to: &str,
        kind: SignalKind,
        payload: String,
    ) -> (ds: Vec<Delivery>)
        ensures
            deliveries_view(ds@) == relay_spec(self@, room@, from@, to@, kind, payload@),
    {
        proof {
            use_type_invariant(self);
        }
        let key = room.to_owned();
        let target = to.to_owned();
        let mut ds: Vec<Delivery> = Vec::new();
        if let Some(i) = find_room(&self.rooms, &key) {
            let r = &self.rooms[i];
            assert(room_wf(rooms_view(self.rooms@)[i as int]));
            if let Some(_j) = find_peer(&r.peers, &target) {
                ds.push(Delivery { room: key.clone(), to: target, msg: ServerMsg::Signal { from, kind, payload } });
            }
        }
        assert(deliveries_view(ds@) =~= relay_spec(self@, room@, from@, to@, kind, payload@));
        ds
    }

    /// Join peer `id` (named `name`) to `room` at server time `now`. Returns
    /// the messages for the joiner (`Welcome`, then `State`) and the
    /// `PeerJoined` deliveries to those already in the room.
    pub fn join_at(&mut self, room: &str, id: PeerId, name: String, now: i64) -> (out: (
        Vec<ServerMsg>,
        Vec<Delivery>,
    ))
        ensures
            (final(self)@, msgs_view(out.0@), deliveries_view(out.1@)) == join_spec(
                old(self)@,
                room@,
                id@,
                name@,
                now,
            ),
            registry_wf(final(self)@),
    {
        proof {
            use_type_invariant(&*self);
        }
        let key = room.to_owned();
        let mut rooms: Vec<Room> = Vec::new();
        std::mem::swap(&mut rooms, &mut self.rooms);
        let ghost old_view = rooms_view(rooms@);
        assert(old_view == old(self)@);
        let me = Peer { id: id.clone(), name: name.clone() };
        let mut to_joiner: Vec<ServerMsg> = Vec::new();
        match find_room(&rooms, &key) {
            Some(i) => {
                let mut r = rooms.remove(i);
                assert(r@ == old_view[i as int]);
                assert(room_wf(old_view[i as int]));
                let ghost old_peers = peers_view(r.peers@);
                to_joiner.push(ServerMsg::Welcome { you: id.clone(), peers: copy_peers(&r.peers) });
                to_joiner.push(r.state.to_state(now));
                let to_peers = fan_out_to(&key, &r.peers, &ServerMsg::PeerJoined { peer: me.copied() });
                proof {
                    lemma_upsert(old_peers, id@, name@);
                }
                match find_peer(&r.peers, &id) {
                    Some(j) => {
                        r.peers.remove(j);
                        r.peers.insert(j, me);
                    },
                    None => {
                        r.peers.push(me);
                    },
                }
                assert(peers_view(r.peers@) =~= upsert_peer(old_peers, id@, name@));
                rooms.insert(i, r);
                let ghost new_view = rooms_view(rooms@);
                assert(new_view =~= old_view.update(
                    i as int,
                    RoomView {
                        id: old_view[i as int].id,
                        state: old_view[i as int].state,
                        peers: upsert_peer(old_peers, id@, name@),
                    },
                ));
                proof {
                    lemma_join_keeps_wf(old_view, room@, id@, name@, now);
                }
                assert(msgs_view(to_joiner@) =~= seq![
                    ServerMsgView::Welcome { you: id@, peers: old_peers },
                    state_msg(old_view[i as int].state, now),
                ]);
                self.rooms = rooms;
                (to_joiner, to_peers)
            },
            None => {
                let state = Playback::starting_at(now);
                let nobody: Vec<Peer> = Vec::new();
                assert(peers_view(nobody@) =~= Seq::<PeerView>::empty());
                to_joiner.push(ServerMsg::Welcome { you: id.clone(), peers: nobody });
                to_joiner.push(state.to_state(now));
                let mut peers: Vec<Peer> = Vec::new();
                peers.push(me);
                assert(peers_view(peers@) =~= seq![PeerView { id: id@, name: name@ }]);
                let r = Room { id: key, state, peers };
                rooms.push(r);
                let ghost new_view = rooms_view(rooms@);
                assert(new_view =~= old_view.push(
                    RoomView {
                        id: room@,
                        state: starting(now),
                        peers: seq![PeerView { id: id@, name: name@ }],
                    },
                ));
                proof {
                    lemma_join_keeps_wf(old_view, room@, id@, name@, now);
                }
                assert(msgs_view(to_joiner@) =~= seq![
                    ServerMsgView::Welcome { you: id@, peers: Seq::empty() },
                    state_msg(starting(now), now),
                ]);
                self.rooms = rooms;
                (to_joiner, Vec::new())
            },
        }
    }

    /// Join peer `id` to `room` now.
    pub fn join(&mut self, room: &str, id: PeerId, name: String) -> (out: (
        Vec<ServerMsg>,
        Vec<Delivery>,
    ))
        ensures
            exists|now: i64|
                now >= 0 && (final(self)@, msgs_view(out.0@), deliveries_view(out.1@)) == join_spec(
                    old(self)@,
                    room@,
                    id@,
                    name@,
                    now,
                ),
            registry_wf(final(self)@),
    {
        let now = now_micros();
        self.join_at(room, id, name, now)
    }

    /// Remove peer `id` from `room`; tell the others; drop the room if it is
    /// now empty.
    pub fn leave(&mut self, room: &str, id: &str) -> (ds: Vec<Delivery>)
        ensures
            (final(self)@, deliveries_view(ds@)) == leave_spec(old(self)@, room@, id@),
            registry_wf(final(self)@),
    {
        proof {
            use_type_invariant(&*self);
        }
        let key = room.to_owned();
        let pid = id.to_owned();
        let mut rooms: Vec<Room> = Vec::new();
        std::mem::swap(&mut rooms, &mut self.rooms);
        let ghost old_view = rooms_view(rooms@);
        assert(old_view == old(self)@);
        match find_room(&rooms, &key) {
            Some(i) => {
                let mut r = rooms.remove(i);
                assert(r@ == old_view[i as int]);
                assert(room_wf(old_view[i as int]));
                let ghost old_peers = peers_view(r.peers@);
                proof {
                    lemma_remove(old_peers, id@);
                }
                match find_peer(&r.peers, &pid) {
                    Some(j) => {
                        r.peers.remove(j);
                    },
                    None => {},
                }
                let ghost rest = remove_peer(old_peers, id@);
                assert(peers_view(r.peers@) =~= rest);
                let ds = fan_out_to(&key, &r.peers, &ServerMsg::PeerLeft { id: pid });
                if r.peers.len() > 0 {
                    rooms.insert(i, r);
                    let ghost new_view = rooms_view(rooms@);
                    assert(new_view =~= old_view.update(
                        i as int,
                        RoomView { id: old_view[i as int].id, state: old_view[i as int].state, peers: rest },
                    ));
                    proof {
                        lemma_leave_keeps_wf(old_view, room@, id@);
                    }
                } else {
                    let ghost new_view = rooms_view(rooms@);
                    assert(new_view =~= old_view.remove(i as int));
                    proof {
                        lemma_leave_keeps_wf(old_view, room@, id@);
                    }
                }
                self.rooms = rooms;
                ds
            },
            None => {
                self.rooms = rooms;
                Vec::new()
            },
        }
    }

    /// Apply control action `c` to `room` at server time `now`.
    fn control_at(&mut self, room: &str, c: Control, now: i64) -> (ds: Vec<Delivery>)
        ensures
            (final(self)@, deliveries_view(ds@)) == control_spec(old(self)@, room@, c@, now),
            registry_wf(final(self)@),
    {
        proof {
            use_type_invariant(&*self);
        }
        let key = room.to_owned();
        let mut rooms: Vec<Room> = Vec::new();
        std::mem::swap(&mut rooms, &mut self.rooms);
        let ghost old_view = rooms_view(rooms@);
        assert(old_view == old(self)@);
        match find_room(&rooms, &key) {
            Some(i) => {
                let mut r = rooms.remove(i);
                assert(r@ == old_view[i as int]);
                let ghost cv = c@;
                match c {
                    Control::Play { playing, at } => r.state.set_play(playing, at, now),
                    Control::Seek { to } => r.state.seek(to, now),
                    Control::Load { video_id } => r.state.load_video(video_id, now),
                }
                assert(r.state@ == next_state(old_view[i as int].state, cv, now));
                let msg = r.state.to_state(now);
                let ds = fan_out_to(&key, &r.peers, &msg);
                rooms.insert(i, r);
                let ghost new_view = rooms_view(rooms@);
                assert(new_view =~= old_view.update(
                    i as int,
                    RoomView {
                        id: old_view[i as int].id,
                        state: next_state(old_view[i as int].state, cv, now),
                        peers: old_view[i as int].peers,
                    },
                ));
                proof {
                    lemma_control_keeps_wf(old_view, room@, cv, now);
                }
                self.rooms = rooms;
                ds
            },
            None => {
                self.rooms = rooms;
                Vec::new()
            },
        }
    }

    /// Play (`playing`) or pause `room` at position `at`, stamped `now`.
    pub fn set_play_at(&mut self, room: &str, playing: bool, at: i64, now: i64) -> (ds: Vec<
        Delivery,
    >)
        ensures
            (final(self)@, deliveries_view(ds@)) == control_spec(
                old(self)@,
                room@,
                ControlView::Play { playing, at },
                now,
            ),
            registry_wf(final(self)@),
    {
        self.control_at(room, Control::Play { playing, at }, now)
    }

    /// Play (`playing`) or pause `room` at position `at`, now.
    pub fn set_play(&mut self, room: &str, playing: bool, at: i64) -> (ds: Vec<Delivery>)
        ensures
            exists|now: i64|
                now >= 0 && (final(self)@, deliveries_view(ds@)) == control_spec(
                    old(self)@,
                    room@,
                    ControlView::Play { playing, at },
                    now,
                ),
            registry_wf(final(self)@),
    {
        let now = now_micros();
        self.set_play_at(room, playing, at, now)
    }

    /// Seek `room` to `to`, stamped `now`.
    pub fn seek_at(&mut self, room: &str, to: i64, now: i64) -> (ds: Vec<Delivery>)
        ensures
            (final(self)@, deliveries_view(ds@)) == control_spec(
                old(self)@,
                room@,
                ControlView::Seek { to },
                now,
            ),
            registry_wf(final(self)@),
    {
        self.control_at(room, Control::Seek { to }, now)
    }

    /// Seek `room` to `to`, now.
    pub fn seek(&mut self, room: &str, to: i64) -> (ds: Vec<Delivery>)
        ensures
            exists|now: i64|
                now >= 0 && (final(self)@, deliveries_view(ds@)) == control_spec(
                    old(self)@,
                    room@,
                    ControlView::Seek { to },
                    now,
                ),
            registry_wf(final(self)@),
    {
        let now = now_micros();
        self.seek_at(room, to, now)
    }

    /// Switch `room` to video `video_id`, paused at 0, stamped `now`.
    pub fn load_video_at(&mut self, room: &str, video_id: String, now: i64) -> (ds: Vec<Delivery>)
        ensures
            (final(self)@, deliveries_view(ds@)) == control_spec(
                old(self)@,
                room@,
                ControlView::Load { video_id: video_id@ },
                now,
            ),
            registry_wf(final(self)@),
    {
        self.control_at(room, Control::Load { video_id }, now)
    }

    /// Switch `room` to video `video_id`, paused at 0, now.
    pub fn load_video(&mut self, room: &str, video_id: String) -> (ds: Vec<Delivery>)
        ensures
            exists|now: i64|
                now >= 0 && (final(self)@, deliveries_view(ds@)) == control_spec(
                    old(self)@,
                    room@,
                    ControlView::Load { video_id: video_id@ },
                    now,
                ),
            registry_wf(final(self)@),
    {
        let now = now_micros();
        self.load_video_at(room, video_id, now)
    }

    /// The heartbeat at server time `now`: every playing room re-broadcasts
    /// its `State`, so clients that drifted re-align.
    pub fn heartbeat_at(&self, now: i64) -> (ds: Vec<Delivery>)
        ensures
            deliveries_view(ds@) == heartbeat_spec(self@, now),
    {
        let mut ds: Vec<Delivery> = Vec::new();
        let n = self.rooms.len();
        for i in 0..n
            invariant
                n == self.rooms@.len(),
                deliveries_view(ds@) == heartbeat_spec(rooms_view(self.rooms@).take(i as int), now),
        {
            let r = &self.rooms[i];
            let ghost before = ds@;
            if r.state.playing {
                let msg = r.state.to_state(now);
                let mut more = fan_out_to(&r.id, &r.peers, &msg);
                let ghost added = more@;
                ds.append(&mut more);
                assert(deliveries_view(ds@) =~= deliveries_view(before) + deliveries_view(added));
            }
            let ghost t = rooms_view(self.rooms@).take(i + 1);
            assert(t.drop_last() =~= rooms_view(self.rooms@).take(i as int));
            assert(t.last() == self.rooms@[i as int]@);
        }
        assert(rooms_view(self.rooms@).take(n as int) =~= rooms_view(self.rooms@));
        ds
    }

    /// The heartbeat now.
    pub fn heartbeat(&self) -> (ds: Vec<Delivery>)
        ensures
            exists|now: i64| now >= 0 && deliveries_view(ds@) == heartbeat_spec(self@, now),
    {
        let now = now_micros();
        self.heartbeat_at(now)
    }
}

} // verus!
