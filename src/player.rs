//! The playback engine: the now-playing record with its elapsed-time accounting,
//! and the state machine that turns commands and output-device status into
//! device actions.
use vstd::prelude::*;
use crate::model::{FsAlbum, FsSong, Song};

verus! {

/// Whole seconds between two instants given in milliseconds; zero where `to`
/// comes before `from`.
pub open spec fn secs_between(from: u64, to: u64) -> nat {
    if to >= from {
        ((to - from) / 1000) as nat
    } else {
        0
    }
}

/// A song as the player knows it. Instants are milliseconds on a monotonic clock
/// that the caller reads.
pub struct SongInfo {
    pub name: String,
    pub artist: String,
    pub album: String,
    /// Length in whole seconds.
    pub length: u64,
    pub play_start: Option<u64>,
    pub paused_at: Option<u64>,
}

impl Clone for SongInfo {
    fn clone(&self) -> (r: Self)
        ensures
            r == *self,
    {
        SongInfo {
            name: self.name.clone(),
            artist: self.artist.clone(),
            album: self.album.clone(),
            length: self.length,
            play_start: self.play_start,
            paused_at: self.paused_at,
        }
    }
}

impl SongInfo {
    /// What `played_time` reports at instant `now`.
    pub open spec fn played_spec(&self, now: u64) -> Option<nat> {
        match self.play_start {
            None => None,
            Some(start) => match self.paused_at {
                None => Some(secs_between(start, now)),
                Some(p) => Some(secs_between(start, p)),
            },
        }
    }

    /// A song that has not started.
    pub fn new(name: String, artist: String, album: String, length: u64) -> (r: SongInfo)
        ensures
            r == (SongInfo { name, artist, album, length, play_start: None, paused_at: None }),
    {
        SongInfo { name, artist, album, length, play_start: None, paused_at: None }
    }

    /// `self` is the player's record of `song`, not yet started.
    pub open spec fn records(&self, song: FsSong) -> bool {
        &&& self.name == song.title
        &&& self.artist@ == song.artist_name_spec()
        &&& self.album == song.album_name
        &&& self.length == song.length_ms / 1000
        &&& self.play_start is None
        &&& self.paused_at is None
    }

    /// The player's record of a library song: its title, artist, album and length.
    pub fn from_song(song: &FsSong) -> (r: SongInfo)
        ensures
            r.records(*song),
    {
        SongInfo::new(
            song.get_title(),
            song.get_artist_name(),
            song.get_album_name(),
            song.length_ms / 1000,
        )
    }

    /// Marks the song as started at `start`, playing.
    pub fn set_start(self, start: u64) -> (r: SongInfo)
        ensures
            r == started(self, start),
    {
        SongInfo { play_start: Some(start), paused_at: None, ..self }
    }

    /// Whole seconds played at `now`: up to the pause where the song is paused, up
    /// to `now` otherwise; `None` where the song has not started.
    pub fn played_time(&self, now: u64) -> (r: Option<u64>)
        ensures
            match r {
                Some(t) => self.played_spec(now) == Some(t as nat),
                None => self.played_spec(now) is None,
            },
    {
        match self.play_start {
            None => None,
            Some(start) => {
                let until = match self.paused_at {
                    None => now,
                    Some(p) => p,
                };
                if until >= start {
                    Some((until - start) / 1000)
                } else {
                    Some(0)
                }
            },
        }
    }

    /// Records a pause at `now`.
    pub fn set_paused(self, now: u64) -> (r: SongInfo)
        ensures
            r == self.paused_spec(now),
    {
        SongInfo { paused_at: Some(now), ..self }
    }

    /// The record after a pause at `now`.
    pub open spec fn paused_spec(self, now: u64) -> SongInfo {
        SongInfo { paused_at: Some(now), ..self }
    }

    /// The record after resuming at `now`: a paused song's start moves forward by
    /// the time spent paused (saturating at 0), and the pause mark is cleared.
    pub open spec fn resumed_spec(self, now: u64) -> SongInfo {
        match self.paused_at {
            None => self,
            Some(p) => {
                let played: int = match self.play_start {
                    Some(start) => if p >= start {
                        p - start
                    } else {
                        0
                    },
                    None => 0,
                };
                SongInfo {
                    play_start: match self.play_start {
                        Some(_) => Some(
                            (if now >= played {
                                now - played
                            } else {
                                0
                            }) as u64,
                        ),
                        None => None,
                    },
                    paused_at: None,
                    ..self
                }
            },
        }
    }

    /// Resumes at `now`: the start moves forward by the time spent paused, so that
    /// the time played stays what it was at the pause. A song that is not paused
    /// is left as it is.
    pub fn unpause(self, now: u64) -> (r: SongInfo)
        ensures
            r == self.resumed_spec(now),
    {
        match (self.play_start, self.paused_at) {
            (Some(start), Some(p)) => {
                let played: u64 = if p >= start {
                    p - start
                } else {
                    0
                };
                let new_start: u64 = if now >= played {
                    now - played
                } else {
                    0
                };
                SongInfo { play_start: Some(new_start), paused_at: None, ..self }
            },
            (None, Some(_)) => SongInfo { paused_at: None, ..self },
            _ => self,
        }
    }
}

/// Pausing and resuming keeps the time played exact: a song started at `start`,
/// paused at `pause` and resumed at `resume` reports at `now` the whole seconds of
/// `(pause - start) + (now - resume)`; the pause itself is not counted. While
/// paused, it reports the seconds up to the pause.
pub proof fn lemma_pause_resume_accounting(
    s: SongInfo,
    start: u64,
    pause: u64,
    resume: u64,
    now: u64,
)
    requires
        start <= pause <= resume <= now,
        s.play_start == Some(start),
    ensures
        s.paused_spec(pause).played_spec(now) == Some(secs_between(start, pause)),
        s.paused_spec(pause).resumed_spec(resume).played_spec(now) == Some(
            (((pause - start) + (now - resume)) / 1000) as nat,
        ),
{
}

/// A command to the playback engine.
pub enum MusicPlayerEvent {
    /// Halt output and drop the queue.
    Stop,
    /// Play a song now if the output is idle, else queue it. The decoded source
    /// travels beside the command.
    Play(SongInfo),
    /// Move on to the next queued song.
    Skip,
    /// Pause when playing, resume when paused.
    Pause,
    /// Change the volume by this many percentage points.
    Volume(i32),
    /// No command: only the idle poll runs.
    Idle,
}

/// What the output device reports before a command is handled.
#[derive(Clone, Copy, Debug, PartialEq, Eq, Structural)]
pub struct SinkStatus {
    /// Nothing is loaded in the device.
    pub empty: bool,
    /// The device is paused.
    pub paused: bool,
}

/// An action for the driver of the output device to perform, in order.
#[derive(Clone, Copy, Debug, PartialEq, Eq, Structural)]
pub enum SinkAction {
    /// Let the device play.
    Resume,
    /// Pause the device.
    Pause,
    /// Halt the device and unload what it holds.
    Stop,
    /// Load the source that came with the command.
    AppendIncoming,
    /// Keep the source that came with the command at the back of the source queue.
    EnqueueIncoming,
    /// Take the source at the front of the source queue and load it.
    AppendQueued,
    /// Drop every queued source.
    ClearQueued,
    /// Set the device volume, in percent.
    SetVolume(u32),
}

/// The engine's state as its contracts see it: the now-playing record, the queue
/// of pending songs (the same one that callers are shown) and the volume.
pub type PlayerState = (Option<SongInfo>, Seq<SongInfo>, u32);

/// The largest volume, in percent.
pub const MAX_VOLUME: u32 = 100;

/// `info` started at `now`, with no pause pending.
pub open spec fn started(info: SongInfo, now: u64) -> SongInfo {
    SongInfo { play_start: Some(now), paused_at: None, ..info }
}

/// `v + delta`, held within 0 and `MAX_VOLUME`.
pub open spec fn clamp_volume(v: u32, delta: i32) -> u32 {
    if v + delta > MAX_VOLUME {
        MAX_VOLUME
    } else if v + delta < 0 {
        0
    } else {
        (v + delta) as u32
    }
}

/// The state and actions that handling `ev` gives.
pub open spec fn handle_spec(s: PlayerState, ev: MusicPlayerEvent, sink: SinkStatus, now: u64) -> (
    PlayerState,
    Seq<SinkAction>,
) {
    let (np, q, vol) = s;
    match ev {
        MusicPlayerEvent::Stop => ((None, Seq::empty(), vol), seq![SinkAction::Stop, SinkAction::ClearQueued]),
        MusicPlayerEvent::Play(info) => if sink.empty {
            ((Some(started(info, now)), q, vol), seq![SinkAction::Resume, SinkAction::AppendIncoming])
        } else {
            ((np, q.push(info), vol), seq![SinkAction::EnqueueIncoming])
        },
        MusicPlayerEvent::Skip => if !sink.empty && q.len() > 0 {
            ((Some(started(q[0], now)), q.drop_first(), vol), seq![SinkAction::Stop, SinkAction::AppendQueued])
        } else {
            (s, Seq::empty())
        },
        MusicPlayerEvent::Pause => if sink.empty {
            (s, Seq::empty())
        } else if sink.paused {
            (
                (
                    match np {
                        Some(i) => Some(i.resumed_spec(now)),
                        None => None,
                    },
                    q,
                    vol,
                ),
                seq![SinkAction::Resume],
            )
        } else {
            (
                (
                    match np {
                        Some(i) => Some(i.paused_spec(now)),
                        None => None,
                    },
                    q,
                    vol,
                ),
                seq![SinkAction::Pause],
            )
        },
        MusicPlayerEvent::Volume(d) => (
            (np, q, clamp_volume(vol, d)),
            seq![SinkAction::SetVolume(clamp_volume(vol, d))],
        ),
        MusicPlayerEvent::Idle => (s, Seq::empty()),
    }
}

/// The state and actions of the idle poll: when the device has run dry, the next
/// queued song starts; with nothing queued, the finished song is cleared.
pub open spec fn tick_spec(s: PlayerState, sink_empty: bool, now: u64) -> (PlayerState, Seq<SinkAction>) {
    let (np, q, vol) = s;
    if sink_empty && q.len() > 0 {
        ((Some(started(q[0], now)), q.drop_first(), vol), seq![SinkAction::AppendQueued])
    } else if sink_empty && np is Some {
        ((None, q, vol), Seq::empty())
    } else {
        (s, Seq::empty())
    }
}

/// The playback engine's decisions. A driver owns the output device and the
/// decoded sources; it hands each command here with the device's status, performs
/// the returned actions, and runs `tick` at a fixed interval.
pub struct PlayerCore {
    pub now_playing: Option<SongInfo>,
    pub queue: Vec<SongInfo>,
    /// Volume in percent.
    pub volume: u32,
}

impl View for PlayerCore {
    type V = PlayerState;

    open spec fn view(&self) -> PlayerState {
        (self.now_playing, self.queue@, self.volume)
    }
}

impl PlayerCore {
    /// The volume never exceeds `MAX_VOLUME`.
    pub open spec fn wf(&self) -> bool {
        self.volume <= MAX_VOLUME
    }

    /// An idle engine at full volume.
    pub fn new() -> (r: PlayerCore)
        ensures
            r@ == (None::<SongInfo>, Seq::<SongInfo>::empty(), MAX_VOLUME),
            r.wf(),
    {
        PlayerCore { now_playing: None, queue: Vec::new(), volume: MAX_VOLUME }
    }

    /// Handles one command, given the device's status and the instant `now`.
    pub fn handle(&mut self, ev: MusicPlayerEvent, sink: SinkStatus, now: u64) -> (r: Vec<SinkAction>)
        ensures
            old(self).wf() ==> final(self).wf(),
            final(self)@ == handle_spec(old(self)@, ev, sink, now).0,
            r@ == handle_spec(old(self)@, ev, sink, now).1,
    {
        match ev {
            MusicPlayerEvent::Stop => {
                self.now_playing = None;
                self.queue = Vec::new();
                vec![SinkAction::Stop, SinkAction::ClearQueued]
            },
            MusicPlayerEvent::Play(info) => {
                if sink.empty {
                    self.now_playing = Some(info.set_start(now));
                    vec![SinkAction::Resume, SinkAction::AppendIncoming]
                } else {
                    self.queue.push(info);
                    vec![SinkAction::EnqueueIncoming]
                }
            },
            MusicPlayerEvent::Skip => {
                if !sink.empty && self.queue.len() > 0 {
                    let next = self.queue.remove(0);
                    self.now_playing = Some(next.set_start(now));
                    vec![SinkAction::Stop, SinkAction::AppendQueued]
                } else {
                    Vec::new()
                }
            },
            MusicPlayerEvent::Pause => {
                if sink.empty {
                    Vec::new()
                } else if sink.paused {
                    self.now_playing = match self.now_playing.take() {
                        Some(i) => Some(i.unpause(now)),
                        None => None,
                    };
                    vec![SinkAction::Resume]
                } else {
                    self.now_playing = match self.now_playing.take() {
                        Some(i) => Some(i.set_paused(now)),
                        None => None,
                    };
                    vec![SinkAction::Pause]
                }
            },
            MusicPlayerEvent::Volume(d) => {
                let v: i64 = self.volume as i64 + d as i64;
                let nv: u32 = if v > MAX_VOLUME as i64 {
                    MAX_VOLUME
                } else if v < 0 {
                    0
                } else {
                    v as u32
                };
                self.volume = nv;
                vec![SinkAction::SetVolume(nv)]
            },
            MusicPlayerEvent::Idle => Vec::new(),
        }
    }

    /// The idle poll, given whether the device has run dry and the instant `now`.
    pub fn tick(&mut self, sink_empty: bool, now: u64) -> (r: Vec<SinkAction>)
        ensures
            old(self).wf() ==> final(self).wf(),
            final(self)@ == tick_spec(old(self)@, sink_empty, now).0,
            r@ == tick_spec(old(self)@, sink_empty, now).1,
    {
        if sink_empty && self.queue.len() > 0 {
            let next = self.queue.remove(0);
            self.now_playing = Some(next.set_start(now));
            vec![SinkAction::AppendQueued]
        } else if sink_empty && self.now_playing.is_some() {
            self.now_playing = None;
            Vec::new()
        } else {
            Vec::new()
        }
    }

    /// The song playing, if any.
    pub fn get_song_info(&self) -> (r: Option<SongInfo>)
        ensures
            r == self.now_playing,
    {
        match &self.now_playing {
            Some(i) => Some(i.clone()),
            None => None,
        }
    }

    /// The songs waiting, in play order.
    pub fn get_queue(&self) -> (r: Vec<SongInfo>)
        ensures
            r@ == self.queue@,
    {
        let mut r: Vec<SongInfo> = Vec::new();
        let mut i: usize = 0;
        while i < self.queue.len()
            invariant
                i <= self.queue.len(),
                r@ == self.queue@.subrange(0, i as int),
            decreases self.queue.len() - i,
        {
            r.push(self.queue[i].clone());
            i = i + 1;
        }
        assert(r@ =~= self.queue@);
        r
    }
}

/// `ev` plays `song`: it is a `Play` of the player's record of `song`.
pub open spec fn plays(ev: MusicPlayerEvent, song: FsSong) -> bool {
    ev matches MusicPlayerEvent::Play(i) && i.records(song)
}

/// The commands that play `song`: a `Stop` first where the queue is replaced.
pub fn song_commands(song: &FsSong, replace_queue: bool) -> (r: Vec<MusicPlayerEvent>)
    ensures
        r@.len() == if replace_queue { 2int } else { 1int },
        replace_queue ==> r@[0] is Stop,
        plays(r@[r@.len() - 1], *song),
{
    let mut r: Vec<MusicPlayerEvent> = Vec::new();
    if replace_queue {
        r.push(MusicPlayerEvent::Stop);
    }
    r.push(MusicPlayerEvent::Play(SongInfo::from_song(song)));
    r
}

/// The commands that play `album`: a `Stop` first where the queue is replaced,
/// then one `Play` for each song, in the album's track order.
pub fn album_commands(album: &FsAlbum, replace_queue: bool) -> (r: Vec<MusicPlayerEvent>)
    ensures
        ({
            let skip: int = if replace_queue { 1 } else { 0 };
            &&& r@.len() == skip + album@.len()
            &&& replace_queue ==> r@[0] is Stop
            &&& forall|k: int| 0 <= k < album@.len() ==> plays(r@[skip + k], #[trigger] album@[k])
        }),
{
    let mut r: Vec<MusicPlayerEvent> = Vec::new();
    if replace_queue {
        r.push(MusicPlayerEvent::Stop);
    }
    let ghost skip: int = if replace_queue { 1 } else { 0 };
    let mut i: usize = 0;
    while i < album.songs.len()
        invariant
            i <= album.songs.len(),
            skip == (if replace_queue { 1int } else { 0int }),
            r@.len() == skip + i,
            replace_queue ==> r@[0] is Stop,
            forall|k: int| 0 <= k < i ==> plays(r@[skip + k], #[trigger] album@[k]),
        decreases album.songs.len() - i,
    {
        let ghost prev = r@;
        let rec = SongInfo::from_song(&album.songs[i]);
        proof {
            assert(rec.records(album@[i as int]));
        }
        r.push(MusicPlayerEvent::Play(rec));
        proof {
            assert forall|k: int| 0 <= k < i + 1 implies plays(r@[skip + k], #[trigger] album@[k]) by {
                if k < i {
                    assert(r@[skip + k] == prev[skip + k]);
                } else {
                    assert(k == i);
                    assert(r@[skip + k] == MusicPlayerEvent::Play(rec));
                }
            }
        }
        i = i + 1;
    }
    r
}

/// Songs queued behind a playing one start by themselves: when the device runs
/// dry with songs queued, the idle poll makes the first of them the song playing,
/// started at that instant, and takes it off the queue, with no `Skip`.
pub proof fn lemma_idle_advance(s: PlayerState, now: u64)
    requires
        s.1.len() > 0,
    ensures
        tick_spec(s, true, now).0 == (Some(started(s.1[0], now)), s.1.drop_first(), s.2),
        tick_spec(s, true, now).1 == seq![SinkAction::AppendQueued],
{
}

} // verus!
