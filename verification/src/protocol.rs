//! Wire protocol and shared types.

use vstd::prelude::*;

verus! {

/// A participant's identifier, assigned by the server on join.
pub type PeerId = String;

/// A room's code.
pub type RoomId = String;

/// Metadata for one uploaded home video. The file itself lives on disk at
/// `media/{id}.mp4`.
#[derive(Debug, Clone, PartialEq, Eq)]
pub struct Video {
    pub id: String,
    pub name: String,
    /// Unix seconds.
    pub uploaded_at: i64,
}

/// A participant in a room.
#[derive(Debug, Clone, PartialEq, Eq)]
pub struct Peer {
    pub id: PeerId,
    pub name: String,
}

/// Which kind of WebRTC signaling payload is being relayed.
#[derive(Debug, Clone, Copy, PartialEq, Eq, Structural)]
pub enum SignalKind {
    Offer,
    Answer,
    IceCandidate,
}

/// The mathematical value of a [`Video`].
pub struct VideoView {
    pub id: Seq<char>,
    pub name: Seq<char>,
    pub uploaded_at: i64,
}

/// The mathematical value of a [`Peer`].
pub struct PeerView {
    pub id: Seq<char>,
    pub name: Seq<char>,
}

impl View for Video {
    type V = VideoView;

    open spec fn view(&self) -> VideoView {
        VideoView { id: self.id@, name: self.name@, uploaded_at: self.uploaded_at }
    }
}

impl View for Peer {
    type V = PeerView;

    open spec fn view(&self) -> PeerView {
        PeerView { id: self.id@, name: self.name@ }
    }
}

impl Video {
    /// A field-by-field copy.
    pub fn copied(&self) -> (r: Video)
        ensures
            r@ == self@,
    {
        Video { id: self.id.clone(), name: self.name.clone(), uploaded_at: self.uploaded_at }
    }
}

impl Peer {
    /// A field-by-field copy.
    pub fn copied(&self) -> (r: Peer)
        ensures
            r@ == self@,
    {
        Peer { id: self.id.clone(), name: self.name.clone() }
    }
}

/// Calls `<str as PartialEq>::eq`: true exactly when the two texts are the
/// same characters.
#[verifier::external_body]
pub(crate) fn same_text(a: &str, b: &str) -> (r: bool)
    ensures
        r == (a@ == b@),
{
    a == b
}

/// The views of a sequence of peers.
pub open spec fn peers_view(ps: Seq<Peer>) -> Seq<PeerView> {
    ps.map_values(|p: Peer| p@)
}

/// The views of a sequence of videos.
pub open spec fn videos_view(vs: Seq<Video>) -> Seq<VideoView> {
    vs.map_values(|v: Video| v@)
}

/// The view of an optional string.
pub open spec fn opt_str(o: Option<String>) -> Option<Seq<char>> {
    match o {
        Some(s) => Some(s@),
        None => None,
    }
}

/// Copies an optional string.
pub fn copy_opt(o: &Option<String>) -> (r: Option<String>)
    ensures
        opt_str(r) == opt_str(*o),
{
    match o {
        Some(s) => Some(s.clone()),
        None => None,
    }
}

/// Copies a list of peers.
pub fn copy_peers(ps: &Vec<Peer>) -> (r: Vec<Peer>)
    ensures
        peers_view(r@) == peers_view(ps@),
{
    let mut out: Vec<Peer> = Vec::new();
    let n = ps.len();
    for i in 0..n
        invariant
            n == ps@.len(),
            out@.len() == i,
            forall|k: int| 0 <= k < i ==> #[trigger] out@[k]@ == ps@[k]@,
    {
        out.push(ps[i].copied());
    }
    assert(peers_view(out@) =~= peers_view(ps@));
    out
}

/// Messages the browser sends up to the server. Positions are in
/// microseconds of video time.
#[derive(Debug, Clone, PartialEq, Eq)]
#[allow(inconsistent_fields)]
pub enum ClientMsg {
    /// Join a room and start receiving state and peer events.
    Join { room: RoomId, name: String, video_id: Option<String> },
    /// Start playing from position `at`.
    Play { at: i64 },
    /// Pause at position `at`.
    Pause { at: i64 },
    /// Jump to position `to`.
    Seek { to: i64 },
    /// Switch everyone to a different video.
    LoadVideo { video_id: String },
    /// WebRTC signaling relayed to one specific peer.
    Signal { to: PeerId, kind: SignalKind, payload: String },
}

/// The mathematical value of a [`ClientMsg`].
#[allow(inconsistent_fields)]
pub enum ClientMsgView {
    Join { room: Seq<char>, name: Seq<char>, video_id: Option<Seq<char>> },
    Play { at: i64 },
    Pause { at: i64 },
    Seek { to: i64 },
    LoadVideo { video_id: Seq<char> },
    Signal { to: Seq<char>, kind: SignalKind, payload: Seq<char> },
}

impl View for ClientMsg {
    type V = ClientMsgView;

    open spec fn view(&self) -> ClientMsgView {
        match self {
            ClientMsg::Join { room, name, video_id } => ClientMsgView::Join {
                room: room@,
                name: name@,
                video_id: opt_str(*video_id),
            },
            ClientMsg::Play { at } => ClientMsgView::Play { at: *at },
            ClientMsg::Pause { at } => ClientMsgView::Pause { at: *at },
            ClientMsg::Seek { to } => ClientMsgView::Seek { to: *to },
            ClientMsg::LoadVideo { video_id } => ClientMsgView::LoadVideo { video_id: video_id@ },
            ClientMsg::Signal { to, kind, payload } => ClientMsgView::Signal {
                to: to@,
                kind: *kind,
                payload: payload@,
            },
        }
    }
}

/// Messages the server pushes down to the browser. `position` and
/// `server_time` are microseconds; `rate` is in thousandths.
#[derive(Debug, Clone, PartialEq, Eq)]
pub enum ServerMsg {
    /// Sent once on join: your identity plus who is already here.
    Welcome { you: PeerId, peers: Vec<Peer> },
    /// Authoritative playback state. Clients reconcile against it:
    /// expected = position + (now - server_time) while `playing`.
    State { playing: bool, position: i64, server_time: i64, rate: u32, video_id: Option<String> },
    PeerJoined { peer: Peer },
    PeerLeft { id: PeerId },
    /// A signaling payload from another peer.
    Signal { from: PeerId, kind: SignalKind, payload: String },
}

/// The mathematical value of a [`ServerMsg`].
pub enum ServerMsgView {
    Welcome { you: Seq<char>, peers: Seq<PeerView> },
    State {
        playing: bool,
        position: i64,
        server_time: i64,
        rate: u32,
        video_id: Option<Seq<char>>,
    },
    PeerJoined { peer: PeerView },
    PeerLeft { id: Seq<char> },
    Signal { from: Seq<char>, kind: SignalKind, payload: Seq<char> },
}

impl View for ServerMsg {
    type V = ServerMsgView;

    open spec fn view(&self) -> ServerMsgView {
        match self {
            ServerMsg::Welcome { you, peers } => ServerMsgView::Welcome {
                you: you@,
                peers: peers_view(peers@),
            },
            ServerMsg::State { playing, position, server_time, rate, video_id } =>
                ServerMsgView::State {
                    playing: *playing,
                    position: *position,
                    server_time: *server_time,
                    rate: *rate,
                    video_id: opt_str(*video_id),
                },
            ServerMsg::PeerJoined { peer } => ServerMsgView::PeerJoined { peer: peer@ },
            ServerMsg::PeerLeft { id } => ServerMsgView::PeerLeft { id: id@ },
            ServerMsg::Signal { from, kind, payload } => ServerMsgView::Signal {
                from: from@,
                kind: *kind,
                payload: payload@,
            },
        }
    }
}

/// Copies a message.
pub fn copy_msg(m: &ServerMsg) -> (r: ServerMsg)
    ensures
        r@ == m@,
{
    match m {
        ServerMsg::Welcome { you, peers } => ServerMsg::Welcome {
            you: you.clone(),
            peers: copy_peers(peers),
        },
        ServerMsg::State { playing, position, server_time, rate, video_id } => ServerMsg::State {
            playing: *playing,
            position: *position,
            server_time: *server_time,
            rate: *rate,
            video_id: copy_opt(video_id),
        },
        ServerMsg::PeerJoined { peer } => ServerMsg::PeerJoined { peer: peer.copied() },
        ServerMsg::PeerLeft { id } => ServerMsg::PeerLeft { id: id.clone() },
        ServerMsg::Signal { from, kind, payload } => ServerMsg::Signal {
            from: from.clone(),
            kind: *kind,
            payload: payload.clone(),
        },
    }
}

/// One message addressed to one peer in one room.
#[derive(Debug, Clone, PartialEq, Eq)]
pub struct Delivery {
    /// The room the recipient is addressed in.
    pub room: RoomId,
    pub to: PeerId,
    pub msg: ServerMsg,
}

/// The mathematical value of a [`Delivery`].
pub struct DeliveryView {
    pub room: Seq<char>,
    pub to: Seq<char>,
    pub msg: ServerMsgView,
}

impl View for Delivery {
    type V = DeliveryView;

    open spec fn view(&self) -> DeliveryView {
        DeliveryView { room: self.room@, to: self.to@, msg: self.msg@ }
    }
}

/// The views of a sequence of deliveries.
pub open spec fn deliveries_view(ds: Seq<Delivery>) -> Seq<DeliveryView> {
    ds.map_values(|d: Delivery| d@)
}

/// The views of a sequence of messages.
pub open spec fn msgs_view(ms: Seq<ServerMsg>) -> Seq<ServerMsgView> {
    ms.map_values(|m: ServerMsg| m@)
}

} // verus!
