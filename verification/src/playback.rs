//! A room's authoritative playback state: an anchor (position at a server
//! time) from which the current position is extrapolated while playing.

use crate::protocol::{opt_str, copy_opt, ServerMsg, ServerMsgView};
use vstd::prelude::*;

verus! {

/// Normal playback speed, in thousandths.
pub const NORMAL_RATE: u32 = 1000;

/// Playback state. `position` is the video position (microseconds) at the
/// server time `updated_at` (Unix microseconds); `rate` is in thousandths.
#[derive(Debug, Clone, PartialEq, Eq)]
pub struct Playback {
    pub playing: bool,
    pub position: i64,
    pub updated_at: i64,
    pub rate: u32,
    pub video_id: Option<String>,
}

/// The mathematical value of a [`Playback`].
pub struct PlaybackView {
    pub playing: bool,
    pub position: i64,
    pub updated_at: i64,
    pub rate: u32,
    pub video_id: Option<Seq<char>>,
}

impl View for Playback {
    type V = PlaybackView;

    open spec fn view(&self) -> PlaybackView {
        PlaybackView {
            playing: self.playing,
            position: self.position,
            updated_at: self.updated_at,
            rate: self.rate,
            video_id: opt_str(self.video_id),
        }
    }
}

/// How far the video moves in `elapsed` microseconds of wall time at `rate`
/// thousandths, rounded toward zero.
pub open spec fn advance(elapsed: int, rate: int) -> int {
    if elapsed >= 0 {
        (elapsed * rate) / 1000
    } else {
        -(((-elapsed) * rate) / 1000)
    }
}

/// Where the video should be at server time `now`: the anchor, moved on by
/// the elapsed time while playing.
pub open spec fn extrapolate(p: PlaybackView, now: i64) -> int {
    if p.playing {
        p.position + advance(now - p.updated_at, p.rate as int)
    } else {
        p.position as int
    }
}

/// `x` held within the range of `i64`.
pub open spec fn clamp_i64(x: int) -> i64 {
    if x < i64::MIN {
        i64::MIN
    } else if x > i64::MAX {
        i64::MAX
    } else {
        x as i64
    }
}

/// The `State` message that describes `p` at server time `now`.
pub open spec fn state_msg(p: PlaybackView, now: i64) -> ServerMsgView {
    ServerMsgView::State {
        playing: p.playing,
        position: clamp_i64(extrapolate(p, now)),
        server_time: now,
        rate: p.rate,
        video_id: p.video_id,
    }
}

/// A fresh room's state at server time `now`: paused at 0, normal speed, no
/// video.
pub open spec fn starting(now: i64) -> PlaybackView {
    PlaybackView { playing: false, position: 0, updated_at: now, rate: 1000, video_id: None }
}

/// `p` after Play (`playing`) or Pause (`!playing`) at `at`, stamped `now`.
pub open spec fn played(p: PlaybackView, playing: bool, at: i64, now: i64) -> PlaybackView {
    PlaybackView { playing, position: at, updated_at: now, rate: p.rate, video_id: p.video_id }
}

/// `p` after a seek to `to`, stamped `now`.
pub open spec fn sought(p: PlaybackView, to: i64, now: i64) -> PlaybackView {
    PlaybackView {
        playing: p.playing,
        position: to,
        updated_at: now,
        rate: p.rate,
        video_id: p.video_id,
    }
}

/// `p` after switching to video `vid`, stamped `now`: paused at 0.
pub open spec fn loaded(p: PlaybackView, vid: Seq<char>, now: i64) -> PlaybackView {
    PlaybackView {
        playing: false,
        position: 0,
        updated_at: now,
        rate: p.rate,
        video_id: Some(vid),
    }
}

impl Playback {
    /// A fresh room's state at server time `now`.
    pub fn starting_at(now: i64) -> (p: Playback)
        ensures
            p@ == starting(now),
    {
        Playback { playing: false, position: 0, updated_at: now, rate: NORMAL_RATE, video_id: None }
    }

    /// Where the video should be at server time `now`, extrapolating from
    /// the anchor.
    pub fn current_position(&self, now: i64) -> (pos: i64)
        ensures
            pos == clamp_i64(extrapolate(self@, now)),
    {
        if !self.playing {
            return self.position;
        }
        let elapsed: i128 = (now as i128) - (self.updated_at as i128);
        let mag: u128 = if elapsed >= 0 { elapsed as u128 } else { (-elapsed) as u128 };
        let rate: u128 = self.rate as u128;
        assert(mag * rate <= 0x2_0000_0000_0000_0000u128 * 0x1_0000_0000u128) by (nonlinear_arith)
            requires
                mag <= 0x2_0000_0000_0000_0000u128,
                rate <= 0x1_0000_0000u128,
        ;
        let prod: u128 = mag * rate;
        let q: u128 = prod / 1000;
        let qi: i128 = q as i128;
        let total: i128 = if elapsed >= 0 {
            (self.position as i128) + qi
        } else {
            (self.position as i128) - qi
        };
        if total < (i64::MIN as i128) {
            i64::MIN
        } else if total > (i64::MAX as i128) {
            i64::MAX
        } else {
            total as i64
        }
    }

    /// The `State` message that describes this state at server time `now`.
    pub fn to_state(&self, now: i64) -> (m: ServerMsg)
        ensures
            m@ == state_msg(self@, now),
    {
        ServerMsg::State {
            playing: self.playing,
            position: self.current_position(now),
            server_time: now,
            rate: self.rate,
            video_id: copy_opt(&self.video_id),
        }
    }

    /// Play (`playing`) or pause at `at`, stamped `now`.
    pub fn set_play(&mut self, playing: bool, at: i64, now: i64)
        ensures
            final(self)@ == played(old(self)@, playing, at, now),
    {
        self.playing = playing;
        self.position = at;
        self.updated_at = now;
    }

    /// Seek to `to`, stamped `now`.
    pub fn seek(&mut self, to: i64, now: i64)
        ensures
            final(self)@ == sought(old(self)@, to, now),
    {
        self.position = to;
        self.updated_at = now;
    }

    /// Switch to video `video_id`, paused at 0, stamped `now`.
    pub fn load_video(&mut self, video_id: String, now: i64)
        ensures
            final(self)@ == loaded(old(self)@, video_id@, now),
    {
        self.video_id = Some(video_id);
        self.position = 0;
        self.playing = false;
        self.updated_at = now;
    }
}

} // verus!
