use vstd::prelude::*;

verus! {

use crate::MAX_VOLUME;

/// Playback phase of one session: `Stopped -> Playing <-> Paused`.
/// `Stopped` means no track is loaded in the engine.
#[derive(Clone, Copy, Debug, PartialEq, Eq, Structural)]
pub enum Playback {
    Stopped,
    Playing,
    Paused,
}

/// Typed failure reported by command application; the command is dropped and
/// the session state is left exactly as it was.
#[derive(Clone, Copy, Debug, PartialEq, Eq, Structural)]
pub enum RunnerError {
    /// The queue holds no track, so there is nothing to play.
    EmptyQueue,
    /// `PlayTrack` named an index at or past the end of the queue.
    IndexOutOfRange,
    /// The command needs a loaded track and the session is stopped.
    NoTrackLoaded,
}

/// One operation the Runner asks the playback engine to perform. Applying a
/// command yields the exact ordered list of these; the Runner itself never
/// touches the engine, so a caller can drive any queue-indexed audio
/// primitive with them.
#[derive(Clone, Copy, Debug, PartialEq, Eq, Structural)]
pub enum EngineAction {
    /// Flush and release the active decode session.
    EndCurrent,
    /// Start playing the queue entry at this index.
    Play(usize),
    Pause,
    Unpause,
    /// Move the play head to this position: whole seconds, then milliseconds.
    SeekTo(u64, u32),
    /// Propagate a volume, in thousandths of full scale.
    SetVolume(u32),
}

/// Largest whole-second count a track position or duration may carry; it
/// keeps every millisecond total well inside `u64`.
pub const MAX_TRACK_SECS: u64 = 0xFFFF_FFFF;

/// Last-known play head position and duration of the current track, split
/// into whole seconds and a millisecond remainder.
#[derive(Clone, Copy, Debug, PartialEq, Eq, Structural)]
pub struct TrackTime {
    pub pos_secs: u64,
    pub pos_millis: u32,
    pub len_secs: u64,
    pub len_millis: u32,
}

/// A seek request, in milliseconds: either an absolute position from the
/// start of the track or a signed offset from the current position.
#[derive(Clone, Copy, Debug, PartialEq, Eq, Structural)]
pub enum Seek {
    Absolute(u64),
    Relative(i64),
}

/// One intent sent by a control surface. Only the Runner interprets these.
#[derive(Clone, Copy, Debug, PartialEq, Eq, Structural)]
pub enum RunnerMessage {
    Play,
    Pause,
    TogglePause,
    PlayNext,
    PlayPrevious,
    PlayTrack(usize),
    Seek(Seek),
    SetVolume(u32),
}

/// Mathematical model of the session state owned by the Runner.
#[verifier::ext_equal]
pub ghost struct RunnerView {
    pub path: Seq<char>,
    pub queue: Seq<Seq<char>>,
    pub index: int,
    pub playback: Playback,
    pub volume: u32,
    pub time: TrackTime,
}

/// Outcome of interpreting one command: the state after it, the engine
/// operations it demands, and the failure it reports, if any. A failing
/// command leaves the state unchanged and demands nothing of the engine.
#[verifier::ext_equal]
pub ghost struct Step {
    pub state: RunnerView,
    pub actions: Seq<EngineAction>,
    pub error: Option<RunnerError>,
}

pub open spec fn wf_time(t: TrackTime) -> bool {
    &&& t.pos_millis < 1000
    &&& t.len_millis < 1000
    &&& t.pos_secs <= MAX_TRACK_SECS
    &&& t.len_secs <= MAX_TRACK_SECS
}

pub open spec fn pos_ms(t: TrackTime) -> int {
    t.pos_secs * 1000 + t.pos_millis
}

pub open spec fn len_ms(t: TrackTime) -> int {
    t.len_secs * 1000 + t.len_millis
}

pub open spec fn zero_time() -> TrackTime {
    TrackTime { pos_secs: 0, pos_millis: 0, len_secs: 0, len_millis: 0 }
}

/// Well-formedness of a session state: the index stays inside a non-empty
/// queue; an empty queue pins the session at index zero and stopped; the
/// volume and the clock stay in range.
pub open spec fn wf_state(s: RunnerView) -> bool {
    &&& s.queue.len() > 0 ==> 0 <= s.index < s.queue.len()
    &&& s.queue.len() == 0 ==> s.index == 0 && s.playback is Stopped
    &&& s.volume <= MAX_VOLUME
    &&& wf_time(s.time)
}

/// Index one step forward, wrapping from the last entry to the first.
pub open spec fn wrap_next(index: int, len: int) -> int {
    if index + 1 < len {
        index + 1
    } else {
        0
    }
}

/// Index one step back, wrapping from the first entry to the last.
pub open spec fn wrap_prev(index: int, len: int) -> int {
    if index == 0 {
        len - 1
    } else {
        index - 1
    }
}

pub open spec fn err_step(s: RunnerView, e: RunnerError) -> Step {
    Step { state: s, actions: Seq::empty(), error: Some(e) }
}

/// State right after the engine was told to start the queue entry at `i`:
/// playing from the beginning, duration not yet reported.
pub open spec fn started_at(s: RunnerView, i: int) -> RunnerView {
    RunnerView { index: i, playback: Playback::Playing, time: zero_time(), ..s }
}

pub open spec fn play_next_step(s: RunnerView) -> Step {
    if s.queue.len() == 0 {
        err_step(s, RunnerError::EmptyQueue)
    } else {
        let i = wrap_next(s.index, s.queue.len() as int);
        Step {
            state: started_at(s, i),
            actions: seq![EngineAction::EndCurrent, EngineAction::Play(i as usize)],
            error: None,
        }
    }
}

pub open spec fn play_previous_step(s: RunnerView) -> Step {
    if s.queue.len() == 0 {
        err_step(s, RunnerError::EmptyQueue)
    } else {
        let i = wrap_prev(s.index, s.queue.len() as int);
        Step {
            state: started_at(s, i),
            actions: seq![EngineAction::EndCurrent, EngineAction::Play(i as usize)],
            error: None,
        }
    }
}

pub open spec fn play_track_step(s: RunnerView, i: int) -> Step {
    if i >= s.queue.len() {
        err_step(s, RunnerError::IndexOutOfRange)
    } else {
        Step {
            state: started_at(s, i),
            actions: seq![EngineAction::EndCurrent, EngineAction::Play(i as usize)],
            error: None,
        }
    }
}

pub open spec fn play_step(s: RunnerView) -> Step {
    match s.playback {
        Playback::Playing => Step { state: s, actions: Seq::empty(), error: None },
        Playback::Paused => Step {
            state: RunnerView { playback: Playback::Playing, ..s },
            actions: seq![EngineAction::Unpause],
            error: None,
        },
        Playback::Stopped => {
            if s.queue.len() == 0 {
                err_step(s, RunnerError::EmptyQueue)
            } else {
                Step {
                    state: started_at(s, s.index),
                    actions: seq![EngineAction::Play(s.index as usize)],
                    error: None,
                }
            }
        },
    }
}

pub open spec fn pause_step(s: RunnerView) -> Step {
    match s.playback {
        Playback::Playing => Step {
            state: RunnerView { playback: Playback::Paused, ..s },
            actions: seq![EngineAction::Pause],
            error: None,
        },
        Playback::Paused => Step { state: s, actions: Seq::empty(), error: None },
        Playback::Stopped => err_step(s, RunnerError::NoTrackLoaded),
    }
}

/// Pause while playing, resume while paused; resuming when the engine has
/// already run off the end of the track advances to the next one instead.
pub open spec fn toggle_pause_step(s: RunnerView, engine_ended: bool) -> Step {
    match s.playback {
        Playback::Playing => pause_step(s),
        Playback::Paused => if engine_ended {
            play_next_step(s)
        } else {
            Step {
                state: RunnerView { playback: Playback::Playing, ..s },
                actions: seq![EngineAction::Unpause],
                error: None,
            }
        },
        Playback::Stopped => play_step(s),
    }
}

pub open spec fn clamp_ms(target: int, len: int) -> int {
    if target < 0 {
        0
    } else if target > len {
        len
    } else {
        target
    }
}

/// Seeking pauses the engine, moves the play head to the clamped target,
/// and unpauses again only if the session was playing before.
pub open spec fn seek_step(s: RunnerView, k: Seek) -> Step {
    if s.playback is Stopped {
        err_step(s, RunnerError::NoTrackLoaded)
    } else {
        let target = match k {
            Seek::Absolute(ms) => clamp_ms(ms as int, len_ms(s.time)),
            Seek::Relative(off) => clamp_ms(pos_ms(s.time) + off, len_ms(s.time)),
        };
        let secs = (target / 1000) as u64;
        let millis = (target % 1000) as u32;
        let unpause: Seq<EngineAction> = if s.playback is Playing {
            seq![EngineAction::Unpause]
        } else {
            Seq::empty()
        };
        Step {
            state: RunnerView {
                time: TrackTime { pos_secs: secs, pos_millis: millis, ..s.time },
                ..s
            },
            actions: seq![EngineAction::Pause, EngineAction::SeekTo(secs, millis)] + unpause,
            error: None,
        }
    }
}

/// Volumes past full scale are clamped, never rejected; this is the one
/// volume policy of the library.
pub open spec fn set_volume_step(s: RunnerView, v: u32) -> Step {
    let clamped: u32 = if v > MAX_VOLUME {
        MAX_VOLUME
    } else {
        v
    };
    Step {
        state: RunnerView { volume: clamped, ..s },
        actions: seq![EngineAction::SetVolume(clamped)],
        error: None,
    }
}

/// The transition function of the session state machine: what one command
/// does to a well-formed state.
pub open spec fn step(s: RunnerView, msg: RunnerMessage, engine_ended: bool) -> Step {
    match msg {
        RunnerMessage::Play => play_step(s),
        RunnerMessage::Pause => pause_step(s),
        RunnerMessage::TogglePause => toggle_pause_step(s, engine_ended),
        RunnerMessage::PlayNext => play_next_step(s),
        RunnerMessage::PlayPrevious => play_previous_step(s),
        RunnerMessage::PlayTrack(i) => play_track_step(s, i as int),
        RunnerMessage::Seek(k) => seek_step(s, k),
        RunnerMessage::SetVolume(v) => set_volume_step(s, v),
    }
}

/// A naturally ended track advances to the next one; with an empty queue
/// the session stops instead.
pub open spec fn track_end_step(s: RunnerView) -> Step {
    if s.queue.len() == 0 {
        Step {
            state: RunnerView { playback: Playback::Stopped, ..s },
            actions: Seq::empty(),
            error: None,
        }
    } else {
        play_next_step(s)
    }
}

/// Every command keeps the session state well formed; together with the
/// constructor this pins the index inside the queue in every reachable
/// state with a non-empty queue.
pub proof fn lemma_step_preserves_wf(s: RunnerView, msg: RunnerMessage, engine_ended: bool)
    requires
        wf_state(s),
    ensures
        wf_state(step(s, msg, engine_ended).state),
{
}

/// A naturally ended track also keeps the state well formed.
pub proof fn lemma_track_end_preserves_wf(s: RunnerView)
    requires
        wf_state(s),
    ensures
        wf_state(track_end_step(s).state),
{
}

/// Wraparound law: advancing from the last index reaches index zero, and
/// retreating from index zero reaches the last index.
pub proof fn lemma_wraparound(s: RunnerView, engine_ended: bool)
    requires
        wf_state(s),
        s.queue.len() > 0,
    ensures
        s.index == s.queue.len() - 1 ==> step(s, RunnerMessage::PlayNext, engine_ended).state.index
            == 0,
        s.index == 0 ==> step(s, RunnerMessage::PlayPrevious, engine_ended).state.index
            == s.queue.len() - 1,
{
}

/// An out-of-range `PlayTrack` is rejected: it reports the failure, leaves
/// the state untouched and asks nothing of the engine.
pub proof fn lemma_play_track_rejected(s: RunnerView, i: usize, engine_ended: bool)
    requires
        wf_state(s),
        i >= s.queue.len(),
    ensures
        step(s, RunnerMessage::PlayTrack(i), engine_ended).state == s,
        step(s, RunnerMessage::PlayTrack(i), engine_ended).error
            == Some(RunnerError::IndexOutOfRange),
        step(s, RunnerMessage::PlayTrack(i), engine_ended).actions.len() == 0,
{
}

/// Whatever volume is requested, the session never leaves the accepted
/// range: out-of-range requests are clamped to full scale.
pub proof fn lemma_set_volume_clamped(s: RunnerView, v: u32, engine_ended: bool)
    requires
        wf_state(s),
    ensures
        step(s, RunnerMessage::SetVolume(v), engine_ended).state.volume <= MAX_VOLUME,
        v <= MAX_VOLUME ==> step(s, RunnerMessage::SetVolume(v), engine_ended).state.volume == v,
{
}

/// Toggling pause twice restores the playback phase: twice from `Playing`
/// ends in `Playing`, twice from `Paused` ends in `Paused`, whether or not
/// the engine ran off the end of a track in between.
pub proof fn lemma_toggle_pause_idempotent(
    s: RunnerView,
    ended_first: bool,
    ended_second: bool,
)
    requires
        wf_state(s),
        !(s.playback is Stopped),
    ensures
        ({
            let once = step(s, RunnerMessage::TogglePause, ended_first).state;
            let twice = step(once, RunnerMessage::TogglePause, ended_second).state;
            &&& s.playback is Playing ==> twice.playback is Playing
            &&& s.playback is Paused ==> twice.playback is Paused
        }),
{
}

/// What the previous control means at a given play head: within the first
/// two seconds of a track it restarts that track from the beginning, and
/// only later does it go back to the previous one.
pub fn previous_intent(pos_secs: u64) -> (r: RunnerMessage)
    ensures
        r == if pos_secs < 2 {
            RunnerMessage::Seek(Seek::Absolute(0))
        } else {
            RunnerMessage::PlayPrevious
        },
{
    if pos_secs < 2 {
        RunnerMessage::Seek(Seek::Absolute(0))
    } else {
        RunnerMessage::PlayPrevious
    }
}

/// The single owner of session state. Observers read value copies through
/// the accessors; every mutation goes through `apply`, `on_track_end` or
/// `update_time`, each of which says exactly what it did.
pub struct Runner {
    path: String,
    queue: Vec<String>,
    index: usize,
    playback: Playback,
    volume: u32,
    time: TrackTime,
}

impl View for Runner {
    type V = RunnerView;

    closed spec fn view(&self) -> RunnerView {
        RunnerView {
            path: self.path@,
            queue: self.queue.deep_view(),
            index: self.index as int,
            playback: self.playback,
            volume: self.volume,
            time: self.time,
        }
    }
}

/// Full path of a queue entry: the folder path, a separator, the track name.
pub open spec fn join_path(path: Seq<char>, name: Seq<char>) -> Seq<char> {
    path + "/"@ + name
}

impl Runner {
    /// Opens a session on a freshly scanned folder: stopped, at the first
    /// track, with the requested volume clamped into range.
    pub fn new(path: String, queue: Vec<String>, volume: u32) -> (r: Runner)
        ensures
            wf_state(r@),
            r@.path == path@,
            r@.queue == queue.deep_view(),
            r@.index == 0,
            r@.playback is Stopped,
            r@.volume == set_volume_step(r@, volume).state.volume,
            r@.time == zero_time(),
    {
        let v = if volume > MAX_VOLUME {
            MAX_VOLUME
        } else {
            volume
        };
        Runner {
            path,
            queue,
            index: 0,
            playback: Playback::Stopped,
            volume: v,
            time: zero_time_exec(),
        }
    }

    /// Applies one command: the state becomes exactly `step(..).state`, and
    /// the returned actions are exactly `step(..).actions`, in order.
    /// `engine_ended` is the engine's has-ended flag as last observed by the
    /// caller; only resuming from pause consults it.
    pub fn apply(&mut self, msg: RunnerMessage, engine_ended: bool) -> (r: Result<
        Vec<EngineAction>,
        RunnerError,
    >)
        requires
            wf_state(old(self)@),
        ensures
            wf_state(final(self)@),
            final(self)@ == step(old(self)@, msg, engine_ended).state,
            match r {
                Ok(actions) => step(old(self)@, msg, engine_ended).error is None && actions@
                    == step(old(self)@, msg, engine_ended).actions,
                Err(e) => step(old(self)@, msg, engine_ended).error == Some(e) && final(self)@
                    == old(self)@,
            },
    {
        proof {
            lemma_step_preserves_wf(self@, msg, engine_ended);
        }
        match msg {
            RunnerMessage::Play => self.do_play(),
            RunnerMessage::Pause => self.do_pause(),
            RunnerMessage::TogglePause => self.do_toggle_pause(engine_ended),
            RunnerMessage::PlayNext => self.do_play_next(),
            RunnerMessage::PlayPrevious => self.do_play_previous(),
            RunnerMessage::PlayTrack(i) => self.do_play_track(i),
            RunnerMessage::Seek(k) => self.do_seek(k),
            RunnerMessage::SetVolume(v) => self.do_set_volume(v),
        }
    }

    /// The engine reported a natural end of track while nobody asked for
    /// it: advance through play-next, or stop on an empty queue.
    pub fn on_track_end(&mut self) -> (r: Vec<EngineAction>)
        requires
            wf_state(old(self)@),
        ensures
            wf_state(final(self)@),
            final(self)@ == track_end_step(old(self)@).state,
            r@ == track_end_step(old(self)@).actions,
    {
        if self.queue.len() == 0 {
            self.playback = Playback::Stopped;
            Vec::new()
        } else {
            let i = self.wrapped_next_index();
            self.start_track(i)
        }
    }

    /// Records the engine-reported clock; nothing else changes.
    pub fn update_time(&mut self, t: TrackTime)
        requires
            wf_state(old(self)@),
            wf_time(t),
        ensures
            wf_state(final(self)@),
            final(self)@ == (RunnerView { time: t, ..old(self)@ }),
    {
        self.time = t;
    }

    pub fn index(&self) -> (r: usize)
        ensures
            r == self@.index,
    {
        self.index
    }

    pub fn len(&self) -> (r: usize)
        ensures
            r == self@.queue.len(),
    {
        self.queue.len()
    }

    pub fn playback(&self) -> (r: Playback)
        ensures
            r == self@.playback,
    {
        self.playback
    }

    /// True exactly while the session is in the `Playing` phase; this is the
    /// flag the change-diff broadcaster observes.
    pub fn playing(&self) -> (r: bool)
        ensures
            r == (self@.playback is Playing),
    {
        match self.playback {
            Playback::Playing => true,
            _ => false,
        }
    }

    pub fn volume(&self) -> (r: u32)
        ensures
            r == self@.volume,
    {
        self.volume
    }

    pub fn time(&self) -> (r: TrackTime)
        ensures
            r == self@.time,
    {
        self.time
    }

    pub fn path(&self) -> (r: String)
        ensures
            r@ == self@.path,
    {
        self.path.clone()
    }

    /// A value copy of the queue, in order.
    pub fn queue(&self) -> (r: Vec<String>)
        ensures
            r.deep_view() == self@.queue,
    {
        let mut out: Vec<String> = Vec::new();
        let mut i: usize = 0;
        while i < self.queue.len()
            invariant
                i <= self.queue.len(),
                out@.len() == i,
                forall|j: int| 0 <= j < i ==> out@[j]@ == self@.queue[j],
            decreases self.queue.len() - i,
        {
            let x = self.queue[i].clone();
            proof {
                assert(x@ == self.queue@[i as int]@);
            }
            out.push(x);
            i += 1;
        }
        proof {
            assert(out.deep_view() =~= self@.queue);
        }
        out
    }

    /// Full path of the queue entry at `i`.
    pub fn get_path_for_file(&self, i: usize) -> (r: String)
        requires
            i < self@.queue.len(),
        ensures
            r@ == join_path(self@.path, self@.queue[i as int]),
    {
        let mut out = self.path.clone();
        out.append("/");
        out.append(self.queue[i].as_str());
        out
    }

    fn wrapped_next_index(&self) -> (r: usize)
        requires
            wf_state(self@),
            self@.queue.len() > 0,
        ensures
            r == wrap_next(self@.index, self@.queue.len() as int),
    {
        if self.index < self.queue.len() - 1 {
            self.index + 1
        } else {
            0
        }
    }

    /// Shared tail of every transition that starts a track: move the index,
    /// reset the clock, mark the session playing, demand end-then-play.
    fn start_track(&mut self, i: usize) -> (r: Vec<EngineAction>)
        requires
            wf_state(old(self)@),
            i < old(self)@.queue.len(),
        ensures
            final(self)@ == started_at(old(self)@, i as int),
            r@ == seq![EngineAction::EndCurrent, EngineAction::Play(i)],
    {
        self.index = i;
        self.playback = Playback::Playing;
        self.time = zero_time_exec();
        let mut out: Vec<EngineAction> = Vec::new();
        out.push(EngineAction::EndCurrent);
        out.push(EngineAction::Play(i));
        proof {
            assert(out@ =~= seq![EngineAction::EndCurrent, EngineAction::Play(i)]);
            assert(final(self)@ =~= started_at(old(self)@, i as int));
        }
        out
    }

    fn do_play(&mut self) -> (r: Result<Vec<EngineAction>, RunnerError>)
        requires
            wf_state(old(self)@),
        ensures
            final(self)@ == play_step(old(self)@).state,
            match r {
                Ok(actions) => play_step(old(self)@).error is None && actions@ == play_step(
                    old(self)@,
                ).actions,
                Err(e) => play_step(old(self)@).error == Some(e) && final(self)@ == old(self)@,
            },
    {
        match self.playback {
            Playback::Playing => {
                proof {
                    assert(final(self)@ =~= play_step(old(self)@).state);
                }
                Ok(Vec::new())
            },
            Playback::Paused => {
                self.playback = Playback::Playing;
                let mut out: Vec<EngineAction> = Vec::new();
                out.push(EngineAction::Unpause);
                proof {
                    assert(final(self)@ =~= play_step(old(self)@).state);
                    assert(out@ =~= play_step(old(self)@).actions);
                }
                Ok(out)
            },
            Playback::Stopped => {
                if self.queue.len() == 0 {
                    Err(RunnerError::EmptyQueue)
                } else {
                    let i = self.index;
                    self.playback = Playback::Playing;
                    self.time = zero_time_exec();
                    let mut out: Vec<EngineAction> = Vec::new();
                    out.push(EngineAction::Play(i));
                    proof {
                        assert(final(self)@ =~= play_step(old(self)@).state);
                        assert(out@ =~= play_step(old(self)@).actions);
                    }
                    Ok(out)
                }
            },
        }
    }

    fn do_pause(&mut self) -> (r: Result<Vec<EngineAction>, RunnerError>)
        requires
            wf_state(old(self)@),
        ensures
            final(self)@ == pause_step(old(self)@).state,
            match r {
                Ok(actions) => pause_step(old(self)@).error is None && actions@ == pause_step(
                    old(self)@,
                ).actions,
                Err(e) => pause_step(old(self)@).error == Some(e) && final(self)@ == old(self)@,
            },
    {
        match self.playback {
            Playback::Playing => {
                self.playback = Playback::Paused;
                let mut out: Vec<EngineAction> = Vec::new();
                out.push(EngineAction::Pause);
                proof {
                    assert(final(self)@ =~= pause_step(old(self)@).state);
                    assert(out@ =~= pause_step(old(self)@).actions);
                }
                Ok(out)
            },
            Playback::Paused => {
                proof {
                    assert(final(self)@ =~= pause_step(old(self)@).state);
                }
                Ok(Vec::new())
            },
            Playback::Stopped => Err(RunnerError::NoTrackLoaded),
        }
    }

    fn do_toggle_pause(&mut self, engine_ended: bool) -> (r: Result<
        Vec<EngineAction>,
        RunnerError,
    >)
        requires
            wf_state(old(self)@),
        ensures
            final(self)@ == toggle_pause_step(old(self)@, engine_ended).state,
            match r {
                Ok(actions) => toggle_pause_step(old(self)@, engine_ended).error is None
                    && actions@ == toggle_pause_step(old(self)@, engine_ended).actions,
                Err(e) => toggle_pause_step(old(self)@, engine_ended).error == Some(e)
                    && final(self)@ == old(self)@,
            },
    {
        match self.playback {
            Playback::Playing => self.do_pause(),
            Playback::Paused => {
                if engine_ended {
                    self.do_play_next()
                } else {
                    self.playback = Playback::Playing;
                    let mut out: Vec<EngineAction> = Vec::new();
                    out.push(EngineAction::Unpause);
                    proof {
                        assert(final(self)@ =~= toggle_pause_step(old(self)@, engine_ended).state);
                        assert(out@ =~= toggle_pause_step(old(self)@, engine_ended).actions);
                    }
                    Ok(out)
                }
            },
            Playback::Stopped => self.do_play(),
        }
    }

    fn do_play_next(&mut self) -> (r: Result<Vec<EngineAction>, RunnerError>)
        requires
            wf_state(old(self)@),
        ensures
            final(self)@ == play_next_step(old(self)@).state,
            match r {
                Ok(actions) => play_next_step(old(self)@).error is None && actions@
                    == play_next_step(old(self)@).actions,
                Err(e) => play_next_step(old(self)@).error == Some(e) && final(self)@ == old(
                    self,
                )@,
            },
    {
        if self.queue.len() == 0 {
            Err(RunnerError::EmptyQueue)
        } else {
            let i = self.wrapped_next_index();
            Ok(self.start_track(i))
        }
    }

    fn do_play_previous(&mut self) -> (r: Result<Vec<EngineAction>, RunnerError>)
        requires
            wf_state(old(self)@),
        ensures
            final(self)@ == play_previous_step(old(self)@).state,
            match r {
                Ok(actions) => play_previous_step(old(self)@).error is None && actions@
                    == play_previous_step(old(self)@).actions,
                Err(e) => play_previous_step(old(self)@).error == Some(e) && final(self)@ == old(
                    self,
                )@,
            },
    {
        if self.queue.len() == 0 {
            Err(RunnerError::EmptyQueue)
        } else {
            let i = if self.index == 0 {
                self.queue.len() - 1
            } else {
                self.index - 1
            };
            Ok(self.start_track(i))
        }
    }

    fn do_play_track(&mut self, i: usize) -> (r: Result<Vec<EngineAction>, RunnerError>)
        requires
            wf_state(old(self)@),
        ensures
            final(self)@ == play_track_step(old(self)@, i as int).state,
            match r {
                Ok(actions) => play_track_step(old(self)@, i as int).error is None && actions@
                    == play_track_step(old(self)@, i as int).actions,
                Err(e) => play_track_step(old(self)@, i as int).error == Some(e) && final(self)@
                    == old(self)@,
            },
    {
        if i >= self.queue.len() {
            Err(RunnerError::IndexOutOfRange)
        } else {
            Ok(self.start_track(i))
        }
    }

    fn do_seek(&mut self, k: Seek) -> (r: Result<Vec<EngineAction>, RunnerError>)
        requires
            wf_state(old(self)@),
        ensures
            final(self)@ == seek_step(old(self)@, k).state,
            match r {
                Ok(actions) => seek_step(old(self)@, k).error is None && actions@ == seek_step(
                    old(self)@,
                    k,
                ).actions,
                Err(e) => seek_step(old(self)@, k).error == Some(e) && final(self)@ == old(self)@,
            },
    {
        match self.playback {
            Playback::Stopped => Err(RunnerError::NoTrackLoaded),
            _ => {
                let was_playing = match self.playback {
                    Playback::Playing => true,
                    _ => false,
                };
                let total: u64 = self.time.len_secs * 1000 + self.time.len_millis as u64;
                let cur: u64 = self.time.pos_secs * 1000 + self.time.pos_millis as u64;
                let target: u64 = match k {
                    Seek::Absolute(ms) => {
                        if ms > total {
                            total
                        } else {
                            ms
                        }
                    },
                    Seek::Relative(off) => {
                        let wide: i128 = cur as i128 + off as i128;
                        if wide < 0 {
                            0
                        } else if wide > total as i128 {
                            total
                        } else {
                            wide as u64
                        }
                    },
                };
                let secs: u64 = target / 1000;
                let millis: u32 = (target % 1000) as u32;
                self.time.pos_secs = secs;
                self.time.pos_millis = millis;
                let mut out: Vec<EngineAction> = Vec::new();
                out.push(EngineAction::Pause);
                out.push(EngineAction::SeekTo(secs, millis));
                if was_playing {
                    out.push(EngineAction::Unpause);
                }
                proof {
                    assert(final(self)@ =~= seek_step(old(self)@, k).state);
                    assert(out@ =~= seek_step(old(self)@, k).actions);
                }
                Ok(out)
            },
        }
    }

    fn do_set_volume(&mut self, v: u32) -> (r: Result<Vec<EngineAction>, RunnerError>)
        requires
            wf_state(old(self)@),
        ensures
            final(self)@ == set_volume_step(old(self)@, v).state,
            match r {
                Ok(actions) => set_volume_step(old(self)@, v).error is None && actions@
                    == set_volume_step(old(self)@, v).actions,
                Err(e) => set_volume_step(old(self)@, v).error == Some(e) && final(self)@ == old(
                    self,
                )@,
            },
    {
        let clamped = if v > MAX_VOLUME {
            MAX_VOLUME
        } else {
            v
        };
        self.volume = clamped;
        let mut out: Vec<EngineAction> = Vec::new();
        out.push(EngineAction::SetVolume(clamped));
        proof {
            assert(final(self)@ =~= set_volume_step(old(self)@, v).state);
            assert(out@ =~= set_volume_step(old(self)@, v).actions);
        }
        Ok(out)
    }
}

fn zero_time_exec() -> (r: TrackTime)
    ensures
        r == zero_time(),
{
    TrackTime { pos_secs: 0, pos_millis: 0, len_secs: 0, len_millis: 0 }
}

} // verus!
