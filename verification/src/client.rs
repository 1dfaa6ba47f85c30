//! The browser client's decisions: which room and name to join with, how the
//! list of peers follows the server's events, when to switch videos, how the
//! player reconciles with an authoritative `State`, and when the user's own
//! player events are reported back. Times are whole milliseconds of wall
//! clock; positions are microseconds of video time.

use crate::protocol::{
    opt_str, peers_view, same_text, ClientMsg, ClientMsgView, Peer, PeerId, PeerView, ServerMsg,
    ServerMsgView, SignalKind, Video, VideoView,
};
use crate::rooms::has_peer;
use vstd::prelude::*;

verus! {

/// How far (microseconds) the player may drift from the server's position
/// before it is moved: 0.3 s.
pub const DRIFT_LIMIT: i64 = 300_000;

/// How long (milliseconds) after applying a server `State` the player's own
/// events are not reported back, so an applied state does not echo.
pub const SUPPRESS_MS: i64 = 700;

/// Unicode's `White_Space` property, which `char::is_whitespace` tests and
/// `str::trim` cuts by: U+0009..U+000D, U+0020, U+0085, U+00A0, U+1680,
/// U+2000..U+200A, U+2028, U+2029, U+202F, U+205F and U+3000.
pub open spec fn is_white_space(c: char) -> bool {
    let n = c as u32;
    ||| 0x09 <= n <= 0x0d
    ||| n == 0x20
    ||| n == 0x85
    ||| n == 0xa0
    ||| n == 0x1680
    ||| 0x2000 <= n <= 0x200a
    ||| n == 0x2028
    ||| n == 0x2029
    ||| n == 0x202f
    ||| n == 0x205f
    ||| n == 0x3000
}

/// `s[a..b]` is `s` with its leading and trailing white space cut: all before
/// `a` and all from `b` on is white space, and a non-empty middle starts and
/// ends with a character that is not.
pub open spec fn trim_bounds(s: Seq<char>, a: int, b: int) -> bool {
    &&& 0 <= a <= b <= s.len()
    &&& forall|k: int| 0 <= k < a ==> is_white_space(#[trigger] s[k])
    &&& forall|k: int| b <= k < s.len() ==> is_white_space(#[trigger] s[k])
    &&& a < b ==> !is_white_space(s[a]) && !is_white_space(s[b - 1])
}

/// `r` is `s` with its leading and trailing white space cut.
pub open spec fn is_trim_of(s: Seq<char>, r: Seq<char>) -> bool {
    exists|a: int, b: int| #[trigger] trim_bounds(s, a, b) && r == s.subrange(a, b)
}

/// Every character of `s` is white space (an empty `s` included).
pub open spec fn is_blank(s: Seq<char>) -> bool {
    forall|k: int| 0 <= k < s.len() ==> is_white_space(#[trigger] s[k])
}

/// Calls `str::trim`, which its documentation describes as the slice with
/// leading and trailing white space (Unicode `White_Space`) removed.
#[verifier::external_body]
fn trim_str(s: &str) -> (r: &str)
    ensures
        is_trim_of(s@, r@),
{
    s.trim()
}

/// The room in an invite link's `room` parameter, if it is not empty.
pub fn room_from_query(param: Option<String>) -> (r: Option<String>)
    ensures
        opt_str(r) == match opt_str(param) {
            Some(s) => if s.len() > 0 { Some(s) } else { None },
            None => None,
        },
{
    match param {
        Some(s) => if s.as_str().is_empty() { None } else { Some(s) },
        None => None,
    }
}

/// The room code the join form starts with: the invite link's, else "main".
pub fn initial_room(param: Option<String>) -> (r: String)
    ensures
        r@ == match opt_str(param) {
            Some(s) => if s.len() > 0 { s } else { "main"@ },
            None => "main"@,
        },
{
    match room_from_query(param) {
        Some(s) => s,
        None => String::from_str("main"),
    }
}

/// The name to join with, given the typed name and its trimmed text:
/// "guest" when the trimmed text is empty, else the name as typed.
pub fn guest_if_blank(name: String, trimmed_text: &str) -> (r: String)
    ensures
        r@ == if trimmed_text@.len() == 0 { "guest"@ } else { name@ },
{
    if trimmed_text.is_empty() {
        String::from_str("guest")
    } else {
        name
    }
}

/// The name to join with: "guest" when the typed name is blank (nothing
/// but white space).
pub fn join_name(name: String) -> (r: String)
    ensures
        r@ == if is_blank(name@) { "guest"@ } else { name@ },
{
    let t = trim_str(name.as_str()).to_owned();
    proof {
        let s = name@;
        let (a, b) = choose|a: int, b: int| #[trigger] trim_bounds(s, a, b) && t@ == s.subrange(a, b);
        if is_blank(s) && a < b {
            assert(is_white_space(s[a]));
        }
        if !is_blank(s) {
            let k = choose|k: int| 0 <= k < s.len() && !is_white_space(#[trigger] s[k]);
            assert(a <= k < b);
            assert(t@.len() == b - a);
        }
    }
    guest_if_blank(name, t.as_str())
}

/// The `Join` message a (re)connecting client sends.
pub fn join_message(room: String, name: String, current: &Option<Video>) -> (m: ClientMsg)
    ensures
        m@ == (ClientMsgView::Join {
            room: room@,
            name: if is_blank(name@) { "guest"@ } else { name@ },
            video_id: match current {
                Some(v) => Some(v.id@),
                None => None,
            },
        }),
{
    let video_id = match current {
        Some(v) => Some(v.id.clone()),
        None => None,
    };
    ClientMsg::Join { room, name: join_name(name), video_id }
}

/// The peers of `ps` other than `id`, in order.
pub open spec fn without(ps: Seq<PeerView>, id: Seq<char>) -> Seq<PeerView>
    decreases ps.len(),
{
    if ps.len() == 0 {
        Seq::empty()
    } else if ps.last().id == id {
        without(ps.drop_last(), id)
    } else {
        without(ps.drop_last(), id).push(ps.last())
    }
}

/// The server said `peer` joined: add it unless a peer with its id is listed.
pub fn peer_joined(peers: &mut Vec<Peer>, peer: Peer)
    ensures
        peers_view(final(peers)@) == if has_peer(peers_view(old(peers)@), peer.id@) {
            peers_view(old(peers)@)
        } else {
            peers_view(old(peers)@).push(peer@)
        },
{
    let n = peers.len();
    let mut found = false;
    for i in 0..n
        invariant
            n == peers@.len(),
            found <==> exists|k: int| 0 <= k < i && #[trigger] peers@[k].id@ == peer.id@,
    {
        if peers[i].id == peer.id {
            found = true;
        }
    }
    proof {
        if found {
            let k = choose|k: int| 0 <= k < n && #[trigger] peers@[k].id@ == peer.id@;
            assert(peers_view(peers@)[k].id == peer.id@);
        } else if has_peer(peers_view(peers@), peer.id@) {
            let k = choose|k: int| 0 <= k < peers_view(peers@).len() && #[trigger] peers_view(peers@)[k].id == peer.id@;
            assert(peers@[k].id@ == peer.id@);
        }
    }
    if !found {
        let ghost before = peers@;
        peers.push(peer);
        assert(peers_view(peers@) =~= peers_view(before).push(peer@));
    }
}

/// The server said peer `id` left: drop every entry with that id.
pub fn peer_left(peers: &mut Vec<Peer>, id: &str)
    ensures
        peers_view(final(peers)@) == without(peers_view(old(peers)@), id@),
{
    let mut kept: Vec<Peer> = Vec::new();
    let n = peers.len();
    for i in 0..n
        invariant
            n == peers@.len(),
            peers_view(kept@) == without(peers_view(peers@.take(i as int)), id@),
    {
        let ghost before = kept@;
        let ghost t = peers_view(peers@.take(i + 1));
        assert(t.drop_last() =~= peers_view(peers@.take(i as int)));
        assert(t.last() == peers@[i as int]@);
        if same_text(peers[i].id.as_str(), id) {
            assert(peers@[i as int].id@ == id@);
        } else {
            assert(peers@[i as int].id@ != id@);
            kept.push(peers[i].copied());
            assert(peers_view(kept@) =~= peers_view(before).push(peers@[i as int]@));
        }
    }
    assert(peers@.take(n as int) =~= peers@);
    *peers = kept;
}

/// How many people the room bar says are watching: at least one (you).
pub fn watching_count(listed: usize) -> (n: usize)
    ensures
        n == if listed >= 1 { listed } else { 1 },
{
    if listed >= 1 {
        listed
    } else {
        1
    }
}

/// The first video of `vs` whose id is `id`.
pub open spec fn first_video(vs: Seq<VideoView>, id: Seq<char>) -> Option<VideoView>
    decreases vs.len(),
{
    if vs.len() == 0 {
        None
    } else if vs[0].id == id {
        Some(vs[0])
    } else {
        first_video(vs.drop_first(), id)
    }
}

/// The video the player should switch to for a `State` naming `target`:
/// none when the state names no video or the one already showing, else
/// the first library entry with that id (none if the library lacks it).
pub open spec fn switch_to(
    current: Option<VideoView>,
    library: Seq<VideoView>,
    target: Option<Seq<char>>,
) -> Option<VideoView> {
    match target {
        None => None,
        Some(vid) => match current {
            Some(c) => if c.id == vid { None } else { first_video(library, vid) },
            None => first_video(library, vid),
        },
    }
}

/// Decide which video to switch to for a `State` that names `target`.
pub fn pick_video(current: &Option<Video>, library: &Vec<Video>, target: &Option<String>) -> (r: Option<Video>)
    ensures
        match r {
            Some(v) => Some(v@),
            None => None::<VideoView>,
        } == switch_to(
            match current {
                Some(c) => Some(c@),
                None => None,
            },
            library@.map_values(|v: Video| v@),
            opt_str(*target),
        ),
{
    let vid = match target {
        Some(v) => v,
        None => return None,
    };
    if let Some(c) = current {
        if c.id == *vid {
            return None;
        }
    }
    let ghost lib = library@.map_values(|v: Video| v@);
    let ghost cur = match current {
        Some(c) => Some(c@),
        None => None::<VideoView>,
    };
    assert(switch_to(cur, lib, opt_str(*target)) == first_video(lib, vid@));
    assert(lib.skip(0) =~= lib);
    let n = library.len();
    for i in 0..n
        invariant
            n == library@.len(),
            lib == library@.map_values(|v: Video| v@),
            first_video(lib, vid@) == first_video(lib.skip(i as int), vid@),
            switch_to(cur, lib, opt_str(*target)) == first_video(lib, vid@),
            cur == match current {
                Some(c) => Some(c@),
                None => None::<VideoView>,
            },
    {
        assert(lib.skip(i as int).drop_first() =~= lib.skip(i + 1));
        assert(lib.skip(i as int)[0] == library@[i as int]@);
        if library[i].id == *vid {
            assert(first_video(lib.skip(i as int), vid@) == Some(library@[i as int]@));
            let found = library[i].copied();
            assert(found@ == library@[i as int]@);
            return Some(found);
        }
    }
    assert(lib.skip(n as int).len() == 0);
    None
}

/// What the player does with an authoritative state.
#[derive(Debug, Clone, Copy, PartialEq, Eq)]
#[allow(inconsistent_fields)]
pub enum PlayerCommand {
    /// Play, first jumping to `seek_to` when it is given.
    Play { seek_to: Option<i64> },
    /// Pause, then jump to `seek_to`.
    Pause { seek_to: i64 },
}

/// |x|
pub open spec fn abs(x: int) -> int {
    if x < 0 { -x } else { x }
}

/// Reconcile the player (now at `current_time`) with a state that says
/// `playing` at `position`: while playing, jump only when the drift exceeds
/// [`DRIFT_LIMIT`]; when paused, always land exactly on the position.
pub fn reconcile(playing: bool, position: i64, current_time: i64) -> (c: PlayerCommand)
    ensures
        playing ==> c == (PlayerCommand::Play {
            seek_to: if abs(current_time - position) > DRIFT_LIMIT { Some(position) } else { None },
        }),
        !playing ==> c == (PlayerCommand::Pause { seek_to: position }),
{
    if playing {
        let drift: i128 = (current_time as i128) - (position as i128);
        let far = drift > (DRIFT_LIMIT as i128) || drift < -(DRIFT_LIMIT as i128);
        PlayerCommand::Play { seek_to: if far { Some(position) } else { None } }
    } else {
        PlayerCommand::Pause { seek_to: position }
    }
}

/// The end of the echo window opened at `now_ms`: 700 ms later, held at
/// the largest `i64`.
pub open spec fn suppress_deadline(now_ms: i64) -> i64 {
    if now_ms + SUPPRESS_MS > i64::MAX {
        i64::MAX
    } else {
        (now_ms + SUPPRESS_MS) as i64
    }
}

/// Until when (milliseconds) the player's own events are ignored after
/// applying a state at `now_ms`.
pub fn suppress_until(now_ms: i64) -> (t: i64)
    ensures
        t == suppress_deadline(now_ms),
{
    if now_ms > i64::MAX - SUPPRESS_MS {
        i64::MAX
    } else {
        now_ms + SUPPRESS_MS
    }
}

/// Is a player event at `now_ms` reported to the server?
pub fn may_report(now_ms: i64, until: i64) -> (b: bool)
    ensures
        b == (now_ms >= until),
{
    now_ms >= until
}

/// A user action on the player.
#[derive(Debug, Clone, Copy, PartialEq, Eq)]
pub enum PlayerEvent {
    Play,
    Pause,
    Seeked,
}

/// The control message that reports `event` with the player at position
/// `current_time`.
pub open spec fn event_msg(event: PlayerEvent, current_time: i64) -> ClientMsgView {
    match event {
        PlayerEvent::Play => ClientMsgView::Play { at: current_time },
        PlayerEvent::Pause => ClientMsgView::Pause { at: current_time },
        PlayerEvent::Seeked => ClientMsgView::Seek { to: current_time },
    }
}

/// What a player event at `now_ms` sends, with the echo window open until
/// `until`: nothing inside the window, else the matching control message.
pub open spec fn report_spec(event: PlayerEvent, now_ms: i64, until: i64, current_time: i64) -> Option<ClientMsgView> {
    if now_ms >= until {
        Some(event_msg(event, current_time))
    } else {
        None
    }
}

/// The message, if any, that reports a player event at `now_ms` with the
/// player at `current_time`, the echo window being open until `until`.
pub fn report_event(event: PlayerEvent, now_ms: i64, until: i64, current_time: i64) -> (m: Option<ClientMsg>)
    ensures
        match m {
            Some(x) => Some(x@),
            None => None::<ClientMsgView>,
        } == report_spec(event, now_ms, until, current_time),
{
    if !may_report(now_ms, until) {
        return None;
    }
    match event {
        PlayerEvent::Play => Some(ClientMsg::Play { at: current_time }),
        PlayerEvent::Pause => Some(ClientMsg::Pause { at: current_time }),
        PlayerEvent::Seeked => Some(ClientMsg::Seek { to: current_time }),
    }
}

/// May the Join button start a join? Only while not joined already.
pub fn may_join(joined: bool) -> (b: bool)
    ensures
        b == !joined,
{
    !joined
}

/// How long (milliseconds) to wait before reconnecting a closed socket.
pub const RECONNECT_DELAY_MS: u32 = 1000;

/// After the socket closed: reconnect after [`RECONNECT_DELAY_MS`] if still
/// meant to be joined, else stay closed.
pub fn reconnect_delay(joined: bool) -> (d: Option<u32>)
    ensures
        d == if joined { Some(RECONNECT_DELAY_MS) } else { None::<u32> },
{
    if joined {
        Some(RECONNECT_DELAY_MS)
    } else {
        None
    }
}

/// A peer's line in the list: its name, marked "(you)" when it is me.
pub fn peer_label(peer: &Peer, me: &Option<String>) -> (s: String)
    ensures
        s@ == if opt_str(*me) == Some(peer.id@) { peer.name@ + " (you)"@ } else { peer.name@ },
{
    let mine = match me {
        Some(m) => *m == peer.id,
        None => false,
    };
    if mine {
        peer.name.clone().concat(" (you)")
    } else {
        peer.name.clone()
    }
}

/// The invite link for `room` on the site at `origin`.
pub fn invite_link(origin: &str, room: &str) -> (s: String)
    ensures
        s@ == origin@ + "/?room="@ + room@,
{
    String::from_str(origin).concat("/?room=").concat(room)
}

/// Where the player streams video `id` from.
pub fn media_url(id: &str) -> (s: String)
    ensures
        s@ == "/media/"@ + id@ + ".mp4"@,
{
    String::from_str("/media/").concat(id).concat(".mp4")
}

/// The WebSocket address for a page served with `protocol` from `host`:
/// secure (`wss`) when the page is `https:`.
pub fn socket_url(protocol: &String, host: &str) -> (s: String)
    ensures
        s@ == (if protocol@ == "https:"@ { "wss"@ } else { "ws"@ }) + "://"@ + host@ + "/ws"@,
{
    let secure = *protocol == String::from_str("https:");
    let scheme = if secure {
        String::from_str("wss")
    } else {
        String::from_str("ws")
    };
    scheme.concat("://").concat(host).concat("/ws")
}

/// What the client knows of the room: who it is and who is there.
pub struct Roster {
    pub me: Option<PeerId>,
    pub peers: Vec<Peer>,
}

/// The mathematical value of a [`Roster`].
pub struct RosterView {
    pub me: Option<Seq<char>>,
    pub peers: Seq<PeerView>,
}

impl View for Roster {
    type V = RosterView;

    open spec fn view(&self) -> RosterView {
        RosterView { me: opt_str(self.me), peers: peers_view(self.peers@) }
    }
}

/// What the page does about a server message, beyond the roster.
#[derive(Debug, Clone, PartialEq, Eq)]
pub enum Reaction {
    /// Nothing more.
    Nothing,
    /// `to` just joined: offer it a call.
    Offer { to: PeerId },
    /// `pid` left: hang up on it.
    Hangup { pid: PeerId },
    /// Reconcile the player with this state.
    Apply { playing: bool, position: i64, video_id: Option<String> },
    /// `from` offers a call: answer it.
    AnswerOffer { from: PeerId, sdp: String },
    /// `from` answered our offer.
    AcceptAnswer { from: PeerId, sdp: String },
    /// `from` sent a network candidate.
    AddCandidate { from: PeerId, candidate: String },
}

/// The mathematical value of a [`Reaction`].
pub enum ReactionView {
    Nothing,
    Offer { to: Seq<char> },
    Hangup { pid: Seq<char> },
    Apply { playing: bool, position: i64, video_id: Option<Seq<char>> },
    AnswerOffer { from: Seq<char>, sdp: Seq<char> },
    AcceptAnswer { from: Seq<char>, sdp: Seq<char> },
    AddCandidate { from: Seq<char>, candidate: Seq<char> },
}

impl View for Reaction {
    type V = ReactionView;

    open spec fn view(&self) -> ReactionView {
        match self {
            Reaction::Nothing => ReactionView::Nothing,
            Reaction::Offer { to } => ReactionView::Offer { to: to@ },
            Reaction::Hangup { pid } => ReactionView::Hangup { pid: pid@ },
            Reaction::Apply { playing, position, video_id } => ReactionView::Apply {
                playing: *playing,
                position: *position,
                video_id: opt_str(*video_id),
            },
            Reaction::AnswerOffer { from, sdp } => ReactionView::AnswerOffer { from: from@, sdp: sdp@ },
            Reaction::AcceptAnswer { from, sdp } => ReactionView::AcceptAnswer {
                from: from@,
                sdp: sdp@,
            },
            Reaction::AddCandidate { from, candidate } => ReactionView::AddCandidate {
                from: from@,
                candidate: candidate@,
            },
        }
    }
}

/// What a server message does to the roster, and what the page does next:
/// `Welcome` sets who I am and who is here; `PeerJoined` lists the newcomer
/// (once) and offers it a call; `PeerLeft` unlists the peer and hangs up;
/// `State` goes to the player; a signaling payload goes to the call by kind.
pub open spec fn react(r: RosterView, m: ServerMsgView) -> (RosterView, ReactionView) {
    match m {
        ServerMsgView::Welcome { you, peers } => (
            RosterView { me: Some(you), peers },
            ReactionView::Nothing,
        ),
        ServerMsgView::PeerJoined { peer } => (
            RosterView {
                me: r.me,
                peers: if has_peer(r.peers, peer.id) { r.peers } else { r.peers.push(peer) },
            },
            ReactionView::Offer { to: peer.id },
        ),
        ServerMsgView::PeerLeft { id } => (
            RosterView { me: r.me, peers: without(r.peers, id) },
            ReactionView::Hangup { pid: id },
        ),
        ServerMsgView::State { playing, position, server_time, rate, video_id } => (
            r,
            ReactionView::Apply { playing, position, video_id },
        ),
        ServerMsgView::Signal { from, kind, payload } => (
            r,
            match kind {
                SignalKind::Offer => ReactionView::AnswerOffer { from, sdp: payload },
                SignalKind::Answer => ReactionView::AcceptAnswer { from, sdp: payload },
                SignalKind::IceCandidate => ReactionView::AddCandidate { from, candidate: payload },
            },
        ),
    }
}

impl Roster {
    /// Nobody known yet.
    pub fn new() -> (r: Roster)
        ensures
            r@ == (RosterView { me: None, peers: Seq::empty() }),
    {
        let r = Roster { me: None, peers: Vec::new() };
        assert(r@.peers =~= Seq::<PeerView>::empty());
        r
    }

    /// Take in one server message.
    pub fn on_server_msg(&mut self, msg: ServerMsg) -> (out: Reaction)
        ensures
            (final(self)@, out@) == react(old(self)@, msg@),
    {
        match msg {
            ServerMsg::Welcome { you, peers } => {
                self.me = Some(you);
                self.peers = peers;
                Reaction::Nothing
            },
            ServerMsg::PeerJoined { peer } => {
                let to = peer.id.clone();
                peer_joined(&mut self.peers, peer);
                Reaction::Offer { to }
            },
            ServerMsg::PeerLeft { id } => {
                peer_left(&mut self.peers, id.as_str());
                Reaction::Hangup { pid: id }
            },
            ServerMsg::State { playing, position, server_time: _, rate: _, video_id } => {
                Reaction::Apply { playing, position, video_id }
            },
            ServerMsg::Signal { from, kind, payload } => match kind {
                SignalKind::Offer => Reaction::AnswerOffer { from, sdp: payload },
                SignalKind::Answer => Reaction::AcceptAnswer { from, sdp: payload },
                SignalKind::IceCandidate => Reaction::AddCandidate { from, candidate: payload },
            },
        }
    }
}

} // verus!
