//! One WebSocket connection's side of the protocol: which peer it is and
//! which room it joined, and what each incoming message does to the rooms.
//! The connection's reader loop feeds each parsed message to
//! [`Session::handle`] and sends what comes back.

use crate::clock::now_micros;
use crate::protocol::{
    deliveries_view, msgs_view, ClientMsg, ClientMsgView, Delivery, DeliveryView, PeerId, RoomId,
    ServerMsg, ServerMsgView,
};
use crate::rooms::{
    control_spec, join_spec, leave_spec, relay_spec, ControlView, RoomRegistry, RoomView,
};
use vstd::prelude::*;

verus! {

/// A connection's identity: its peer id and room, once it has joined.
#[derive(Debug)]
pub struct Session {
    pub peer_id: Option<PeerId>,
    pub room: Option<RoomId>,
}

/// The mathematical value of a [`Session`].
pub struct SessionView {
    pub peer_id: Option<Seq<char>>,
    pub room: Option<Seq<char>>,
}

impl View for Session {
    type V = SessionView;

    open spec fn view(&self) -> SessionView {
        SessionView {
            peer_id: match self.peer_id {
                Some(p) => Some(p@),
                None => None,
            },
            room: match self.room {
                Some(r) => Some(r@),
                None => None,
            },
        }
    }
}

/// What handling one message produced.
#[derive(Debug, PartialEq, Eq)]
pub enum Outcome {
    /// The connection joined as peer `id`: `to_joiner` goes to this
    /// connection, `to_peers` to the others in the room.
    Joined { id: PeerId, to_joiner: Vec<ServerMsg>, to_peers: Vec<Delivery> },
    /// Messages for other connections (possibly none).
    Sent { deliveries: Vec<Delivery> },
}

/// The mathematical value of an [`Outcome`].
pub enum OutcomeView {
    Joined { id: Seq<char>, to_joiner: Seq<ServerMsgView>, to_peers: Seq<DeliveryView> },
    Sent { deliveries: Seq<DeliveryView> },
}

impl View for Outcome {
    type V = OutcomeView;

    open spec fn view(&self) -> OutcomeView {
        match self {
            Outcome::Joined { id, to_joiner, to_peers } => OutcomeView::Joined {
                id: id@,
                to_joiner: msgs_view(to_joiner@),
                to_peers: deliveries_view(to_peers@),
            },
            Outcome::Sent { deliveries } => OutcomeView::Sent {
                deliveries: deliveries_view(deliveries@),
            },
        }
    }
}

/// A control action applied to the session's room, if it has joined one.
pub open spec fn control_in(s: SessionView, rooms: Seq<RoomView>, c: ControlView, now: i64) -> (
    SessionView,
    Seq<RoomView>,
    OutcomeView,
) {
    match s.room {
        Some(r) => {
            let (rooms2, ds) = control_spec(rooms, r, c, now);
            (s, rooms2, OutcomeView::Sent { deliveries: ds })
        },
        None => (s, rooms, OutcomeView::Sent { deliveries: Seq::empty() }),
    }
}

/// What one incoming message does, given the session, the rooms, the id a
/// join would take, and the server time.
pub open spec fn handle_spec(
    s: SessionView,
    rooms: Seq<RoomView>,
    msg: ClientMsgView,
    fresh: Seq<char>,
    now: i64,
) -> (SessionView, Seq<RoomView>, OutcomeView) {
    match msg {
        ClientMsgView::Join { room, name, video_id } => {
            let (rooms2, to_joiner, to_peers) = join_spec(rooms, room, fresh, name, now);
            (
                SessionView { peer_id: Some(fresh), room: Some(room) },
                rooms2,
                OutcomeView::Joined { id: fresh, to_joiner, to_peers },
            )
        },
        ClientMsgView::Play { at } => control_in(s, rooms, ControlView::Play { playing: true, at }, now),
        ClientMsgView::Pause { at } => control_in(
            s,
            rooms,
            ControlView::Play { playing: false, at },
            now,
        ),
        ClientMsgView::Seek { to } => control_in(s, rooms, ControlView::Seek { to }, now),
        ClientMsgView::LoadVideo { video_id } => control_in(
            s,
            rooms,
            ControlView::Load { video_id },
            now,
        ),
        ClientMsgView::Signal { to, kind, payload } => match (s.room, s.peer_id) {
            (Some(r), Some(from)) => (
                s,
                rooms,
                OutcomeView::Sent { deliveries: relay_spec(rooms, r, from, to, kind, payload) },
            ),
            _ => (s, rooms, OutcomeView::Sent { deliveries: Seq::empty() }),
        },
    }
}

/// What closing the connection does: a joined peer leaves its room.
pub open spec fn close_spec(s: SessionView, rooms: Seq<RoomView>) -> (
    Seq<RoomView>,
    Seq<DeliveryView>,
) {
    match (s.room, s.peer_id) {
        (Some(r), Some(id)) => leave_spec(rooms, r, id),
        _ => (rooms, Seq::empty()),
    }
}

/// An outcome that sends nothing.
fn nothing_sent() -> (out: Outcome)
    ensures
        out@ == (OutcomeView::Sent { deliveries: Seq::empty() }),
{
    let none: Vec<Delivery> = Vec::new();
    assert(deliveries_view(none@) =~= Seq::<DeliveryView>::empty());
    Outcome::Sent { deliveries: none }
}

impl Session {
    /// A connection that has not joined yet.
    pub fn new() -> (s: Session)
        ensures
            s@ == (SessionView { peer_id: None, room: None }),
    {
        Session { peer_id: None, room: None }
    }

    /// Does handling `msg` take a fresh peer id? (Only a join does.)
    pub fn needs_peer_id(msg: &ClientMsg) -> (b: bool)
        ensures
            b == (msg is Join),
    {
        match msg {
            ClientMsg::Join { .. } => true,
            _ => false,
        }
    }

    /// Handle one message at server time `now`; a join takes the id `fresh`.
    pub fn handle_at(&mut self, rooms: &mut RoomRegistry, msg: ClientMsg, fresh: PeerId, now: i64) -> (out: Outcome)
        ensures
            (final(self)@, final(rooms)@, out@) == handle_spec(old(self)@, old(rooms)@, msg@, fresh@, now),
    {
        match msg {
            ClientMsg::Join { room, name, video_id: _ } => {
                let (to_joiner, to_peers) = rooms.join_at(room.as_str(), fresh.clone(), name, now);
                self.peer_id = Some(fresh.clone());
                self.room = Some(room);
                Outcome::Joined { id: fresh, to_joiner, to_peers }
            },
            ClientMsg::Play { at } => match &self.room {
                Some(r) => Outcome::Sent { deliveries: rooms.set_play_at(r.as_str(), true, at, now) },
                None => nothing_sent(),
            },
            ClientMsg::Pause { at } => match &self.room {
                Some(r) => Outcome::Sent { deliveries: rooms.set_play_at(r.as_str(), false, at, now) },
                None => nothing_sent(),
            },
            ClientMsg::Seek { to } => match &self.room {
                Some(r) => Outcome::Sent { deliveries: rooms.seek_at(r.as_str(), to, now) },
                None => nothing_sent(),
            },
            ClientMsg::LoadVideo { video_id } => match &self.room {
                Some(r) => Outcome::Sent { deliveries: rooms.load_video_at(r.as_str(), video_id, now) },
                None => nothing_sent(),
            },
            ClientMsg::Signal { to, kind, payload } => {
                match (&self.room, &self.peer_id) {
                    (Some(r), Some(from)) => {
                        let ds = rooms.relay_signal(r.as_str(), from.clone(), to.as_str(), kind, payload);
                        Outcome::Sent { deliveries: ds }
                    },
                    _ => nothing_sent(),
                }
            },
        }
    }

    /// Handle one message now; a join takes the id `fresh`.
    pub fn handle(&mut self, rooms: &mut RoomRegistry, msg: ClientMsg, fresh: PeerId) -> (out: Outcome)
        ensures
            exists|now: i64|
                now >= 0 && (final(self)@, final(rooms)@, out@) == handle_spec(old(self)@, old(rooms)@, msg@, fresh@, now),
    {
        let now = now_micros();
        self.handle_at(rooms, msg, fresh, now)
    }

    /// The connection closed: if it had joined, its peer leaves the room.
    pub fn close(&self, rooms: &mut RoomRegistry) -> (ds: Vec<Delivery>)
        ensures
            (final(rooms)@, deliveries_view(ds@)) == close_spec(self@, old(rooms)@),
    {
        match (&self.room, &self.peer_id) {
            (Some(r), Some(id)) => rooms.leave(r.as_str(), id.as_str()),
            _ => Vec::new(),
        }
    }
}

} // verus!
