//! Which frames of the shared camera stream one client is sent, and at what time they play.
//!
//! A pipeline can be stopped and started again by the RTSP server (that is what happens
//! between DESCRIBE and PLAY). Frames that arrive while it is stopped are dropped, and after it
//! started again nothing is sent until the next keyframe.

use std::collections::VecDeque;
use std::sync::Arc;
use vstd::prelude::*;

use crate::media::{HubFrame, Media};

verus! {

/// Frames a slow client may lag behind before it has to resync on the next keyframe.
pub const BROADCAST_CAPACITY: usize = 1024;

/// A client that has more bytes than this queued is not reading: frames are dropped until the
/// next keyframe.
pub const MAX_QUEUED_BYTES: u64 = 6291456;

/// How many milliseconds pass before a pipeline that is not running is looked at again.
pub const IDLE_SLEEP_MILLIS: u64 = 10;

pub const MICROSECONDS: u32 = 1000000;

/// The states of a pipeline.
#[derive(Clone, Copy, Debug, PartialEq, Eq, Structural)]
pub enum PipelineState {
    VoidPending,
    Null,
    Ready,
    Paused,
    Playing,
}

/// Is a pipeline up and able to take frames? One without a source never is.
pub open spec fn is_running(source: Option<PipelineState>) -> bool {
    source == Some(PipelineState::Paused) || source == Some(PipelineState::Playing)
}

/// Is a pipeline up and able to take frames? One without a source never is.
pub fn pipeline_running(source: Option<PipelineState>) -> (r: bool)
    ensures
        r == is_running(source),
{
    match source {
        Some(PipelineState::Paused) => true,
        Some(PipelineState::Playing) => true,
        _ => false,
    }
}

/// Why a source cannot be fed any more.
#[derive(Debug)]
pub enum FeedError {
    /// The source is not part of a pipeline any more.
    Closed,
    /// A pad of the source leads nowhere.
    NotLinked,
    /// The pipeline refused a frame, and said why.
    Streaming(String),
}

/// The texts that the errors are reported with.
pub open spec fn feed_error_text(error: FeedError) -> Seq<char> {
    match error {
        FeedError::Closed => "App source is closed"@,
        FeedError::NotLinked => "App source is not linked"@,
        FeedError::Streaming(reason) => "Error in streaming: "@ + reason@,
    }
}

impl FeedError {
    /// The text that the error is reported with.
    pub fn message(&self) -> (r: String)
        ensures
            r@ == feed_error_text(*self),
    {
        match self {
            FeedError::Closed => "App source is closed".to_owned(),
            FeedError::NotLinked => "App source is not linked".to_owned(),
            FeedError::Streaming(reason) => {
                let mut text = "Error in streaming: ".to_owned();
                vstd::string::StringExecFns::append(&mut text, reason.as_str());
                text
            },
        }
    }
}

/// Can a source still be fed? It needs a bus, and all its pads have to be linked.
pub open spec fn liveness(has_bus: bool, pads_linked: Seq<bool>) -> Result<(), FeedError> {
    if !has_bus {
        Err(FeedError::Closed)
    } else if pads_linked.contains(false) {
        Err(FeedError::NotLinked)
    } else {
        Ok(())
    }
}

/// Can a source still be fed? It needs a bus, and all its pads have to be linked.
pub fn check_live(has_bus: bool, pads_linked: &Vec<bool>) -> (r: Result<(), FeedError>)
    ensures
        r == liveness(has_bus, pads_linked@),
        r is Ok <==> has_bus && forall|k: int| 0 <= k < pads_linked@.len() ==> pads_linked@[k],
{
    if !has_bus {
        return Err(FeedError::Closed);
    }
    let mut i: usize = 0;
    while i < pads_linked.len()
        invariant
            i <= pads_linked.len(),
            forall|k: int| 0 <= k < i ==> pads_linked@[k],
            has_bus,
        decreases pads_linked.len() - i,
    {
        if !pads_linked[i] {
            assert(pads_linked@.contains(false));
            return Err(FeedError::NotLinked);
        }
        i = i + 1;
    }
    Ok(())
}

/// What a source made of a frame.
#[derive(Debug)]
pub enum Flow {
    Taken,
    /// The source is not taking frames at the moment.
    Flushing,
    /// The pipeline failed, for this reason.
    Failed(String),
}

/// Did a source take a frame? A failed pipeline is an error.
pub fn push_outcome(flow: Flow) -> (r: Result<bool, FeedError>)
    ensures
        r == match flow {
            Flow::Taken => Ok::<bool, FeedError>(true),
            Flow::Flushing => Ok(false),
            Flow::Failed(reason) => Err(FeedError::Streaming(reason)),
        },
{
    match flow {
        Flow::Taken => Ok(true),
        Flow::Flushing => Ok(false),
        Flow::Failed(reason) => Err(FeedError::Streaming(reason)),
    }
}

/// The two kinds of media that a client is sent.
#[derive(Clone, Copy, Debug, PartialEq, Eq, Structural)]
pub enum Track {
    Video,
    Audio,
}

/// The order to send a frame to a client, with the time in microseconds at which it plays.
#[derive(Clone, Copy, Debug, PartialEq, Eq, Structural)]
pub struct Push {
    pub track: Track,
    pub ts: u32,
}

/// How far a client has come.
#[derive(Clone, Copy, Debug)]
pub struct Progress {
    /// Has the client been sent a keyframe that the frames to come build on?
    pub started: bool,
    /// The run of the camera stream that the last frame came from.
    pub epoch: Option<u64>,
    /// When the next video frame plays, in microseconds.
    pub vid_ts: u32,
    /// When the next audio frame plays, in microseconds.
    pub aud_ts: u32,
}

/// The mathematical model of a `Progress`.
pub struct ProgressView {
    pub started: bool,
    pub epoch: Option<u64>,
    pub vid_ts: nat,
    pub aud_ts: nat,
}

impl View for Progress {
    type V = ProgressView;

    open spec fn view(&self) -> ProgressView {
        ProgressView {
            started: self.started,
            epoch: self.epoch,
            vid_ts: self.vid_ts as nat,
            aud_ts: self.aud_ts as nat,
        }
    }
}

impl ProgressView {
    /// A client that has been sent nothing.
    pub open spec fn initial() -> ProgressView {
        ProgressView { started: false, epoch: None, vid_ts: 0, aud_ts: 0 }
    }

    /// A client that has to wait for the next keyframe.
    pub open spec fn halted(self) -> ProgressView {
        ProgressView { started: false, ..self }
    }

    /// Do the frames that the client has been sent lead up to this one? They do not where the
    /// camera stream has been restarted, nor where the client is not reading.
    pub open spec fn leads_to(self, frame: HubFrame, stalled: bool) -> bool {
        self.started && self.epoch == Some(frame.epoch) && !stalled
    }

    /// Does the client start, or start over, with this frame?
    pub open spec fn starts_with(self, frame: HubFrame, stalled: bool) -> bool {
        frame.media.is_key() && !self.leads_to(frame, stalled)
    }

    /// Is the client running once the frame has come?
    pub open spec fn running(self, frame: HubFrame, stalled: bool) -> bool {
        frame.media.is_key() || self.leads_to(frame, stalled)
    }

    /// When a video frame plays that comes now.
    pub open spec fn video_time(self, frame: HubFrame, stalled: bool) -> nat {
        if self.starts_with(frame, stalled) {
            0
        } else {
            self.vid_ts
        }
    }

    /// When an audio frame plays that comes now.
    pub open spec fn audio_time(self, frame: HubFrame, stalled: bool) -> nat {
        if self.starts_with(frame, stalled) {
            0
        } else {
            self.aud_ts
        }
    }

    /// The client once a frame has come. The clocks run on with the frames, video by a fixed
    /// step and audio by what each frame holds.
    pub open spec fn fed(self, step: u32, frame: HubFrame, stalled: bool) -> ProgressView {
        let running = self.running(frame, stalled);
        ProgressView {
            started: running,
            epoch: Some(frame.epoch),
            vid_ts: self.video_time(frame, stalled) + if running && frame.media.is_video() {
                step as nat
            } else {
                0
            },
            aud_ts: self.audio_time(frame, stalled) + if running && frame.media.is_audio() {
                frame.media.play_time() as nat
            } else {
                0
            },
        }
    }

    /// Do the clocks still fit in 32 bits once a frame has come?
    pub open spec fn fits(self, step: u32, frame: HubFrame, stalled: bool) -> bool {
        &&& self.fed(step, frame, stalled).vid_ts <= u32::MAX
        &&& self.fed(step, frame, stalled).aud_ts <= u32::MAX
    }
}

/// The sources that a client's pipeline has.
#[derive(Clone, Copy, Debug, PartialEq, Eq, Structural)]
pub struct Sources {
    pub video: bool,
    pub audio: bool,
}

/// The source that shows how the pipeline is doing: that of the video, or else that of the
/// audio.
pub open spec fn watched_track(sources: Sources) -> Option<Track> {
    if sources.video {
        Some(Track::Video)
    } else if sources.audio {
        Some(Track::Audio)
    } else {
        None
    }
}

impl Sources {
    /// The source that shows how the pipeline is doing.
    pub fn watched(&self) -> (r: Option<Track>)
        ensures
            r == watched_track(*self),
    {
        if self.video {
            Some(Track::Video)
        } else if self.audio {
            Some(Track::Audio)
        } else {
            None
        }
    }
}

/// What is seen of the watched source.
#[derive(Debug)]
pub struct SourceStatus {
    pub has_bus: bool,
    /// Which of its pads are linked.
    pub pads_linked: Vec<bool>,
    pub state: PipelineState,
}

/// Can the pipeline still be fed? Without a source there is nothing to fail.
pub open spec fn pipeline_liveness(watched: Option<SourceStatus>) -> Result<(), FeedError> {
    match watched {
        Some(status) => liveness(status.has_bus, status.pads_linked@),
        None => Ok(()),
    }
}

/// Is the pipeline up and able to take frames?
pub open spec fn pipeline_runs(watched: Option<SourceStatus>) -> bool {
    is_running(
        match watched {
            Some(status) => Some(status.state),
            None => None,
        },
    )
}

/// What comes where a frame of the camera stream is waited for.
#[derive(Debug)]
pub enum Arrival {
    Frame(Arc<HubFrame>),
    /// The client was too slow, and frames were lost.
    Lagged,
    /// The camera stream is over for good.
    Closed,
}

/// The order to send a frame to a client, if it is to be sent.
pub open spec fn order_for(
    sources: Sources,
    progress: ProgressView,
    frame: HubFrame,
    stalled: bool,
) -> Option<Push> {
    if !progress.running(frame, stalled) {
        None
    } else if frame.media.is_video() && sources.video {
        Some(Push { track: Track::Video, ts: progress.video_time(frame, stalled) as u32 })
    } else if frame.media.is_audio() && sources.audio {
        Some(Push { track: Track::Audio, ts: progress.audio_time(frame, stalled) as u32 })
    } else {
        None
    }
}

/// What to do next for a client.
#[derive(Debug)]
pub enum NextMove {
    /// The pipeline is not running: wait for so many milliseconds. Where `drop_arrived` is
    /// set, throw away the frames that have arrived by the end of it.
    Wait { millis: u64, drop_arrived: bool },
    /// Take this frame of the backlog.
    Take(Arc<HubFrame>),
    /// Wait for the next frame of the camera stream.
    Receive,
    /// Begin the next round, with a new look at the pipeline.
    Again,
    /// Feeding is over, in success or with an error.
    End(Result<(), FeedError>),
}

/// Sends the frames of the shared camera stream into the pipeline of one client.
#[derive(Debug)]
pub struct Feeder {
    pub sources: Sources,
    /// The time that one video frame plays, in microseconds.
    pub vid_step: u32,
    /// The frames since the last keyframe, which let the pipeline start at once.
    pub backlog: VecDeque<Arc<HubFrame>>,
    /// Has the pipeline been running before?
    pub has_run: bool,
    pub progress: Progress,
}

/// The mathematical model of a `Feeder`.
#[verifier::ext_equal]
pub struct FeederView {
    pub sources: Sources,
    pub step: u32,
    pub backlog: Seq<Arc<HubFrame>>,
    pub has_run: bool,
    pub progress: ProgressView,
}

impl View for Feeder {
    type V = FeederView;

    open spec fn view(&self) -> FeederView {
        FeederView {
            sources: self.sources,
            step: self.vid_step,
            backlog: self.backlog@,
            has_run: self.has_run,
            progress: self.progress@,
        }
    }
}

impl FeederView {
    /// A client that starts with a backlog of frames.
    pub open spec fn opened(
        sources: Sources,
        step: u32,
        backlog: Seq<Arc<HubFrame>>,
    ) -> FeederView {
        FeederView {
            sources,
            step,
            backlog,
            has_run: false,
            progress: ProgressView::initial(),
        }
    }

    /// A client that has to wait for the next keyframe.
    pub open spec fn halted(self) -> FeederView {
        FeederView { progress: self.progress.halted(), ..self }
    }

    /// A client whose pipeline is running. The next frame of the backlog is taken out.
    pub open spec fn advanced(self) -> FeederView {
        FeederView {
            has_run: true,
            backlog: if self.backlog.len() > 0 {
                self.backlog.drop_first()
            } else {
                self.backlog
            },
            ..self
        }
    }

    /// The client once a frame has come.
    pub open spec fn fed(self, frame: HubFrame, stalled: bool) -> FeederView {
        FeederView { progress: self.progress.fed(self.step, frame, stalled), ..self }
    }

    /// The order to send a frame that comes now, if it is to be sent.
    pub open spec fn order(self, frame: HubFrame, stalled: bool) -> Option<Push> {
        order_for(self.sources, self.progress, frame, stalled)
    }

    /// The client once a frame that was sent has been taken by the pipeline or refused.
    pub open spec fn settled(self, taken: bool) -> FeederView {
        if taken {
            self
        } else {
            self.halted()
        }
    }
}

impl Feeder {
    /// A client that starts with a backlog of frames, in a stream of so many video frames per
    /// second.
    pub fn new(sources: Sources, fps: u32, gop: Vec<Arc<HubFrame>>) -> (r: Feeder)
        ensures
            r@ == FeederView::opened(
                sources,
                MICROSECONDS / (if fps == 0 { 1 } else { fps }),
                gop@,
            ),
    {
        let fps_or_one: u32 = if fps == 0 { 1 } else { fps };
        let vid_step: u32 = MICROSECONDS / fps_or_one;
        let mut backlog: VecDeque<Arc<HubFrame>> = VecDeque::new();
        let mut i: usize = 0;
        while i < gop.len()
            invariant
                i <= gop.len(),
                backlog@ == gop@.take(i as int),
            decreases gop.len() - i,
        {
            backlog.push_back(gop[i].clone());
            assert(gop@.take(i + 1) =~= gop@.take(i as int).push(gop@[i as int]));
            i = i + 1;
        }
        assert(gop@.take(i as int) =~= gop@);
        Feeder {
            sources,
            vid_step,
            backlog,
            has_run: false,
            progress: Progress { started: false, epoch: None, vid_ts: 0, aud_ts: 0 },
        }
    }

    /// What to do next. Feeding is over with an error once the watched source is dead. A
    /// pipeline that is not running takes nothing, and waits for the next keyframe when it starts
    /// again. A running one takes the backlog first.
    pub fn next_move(&mut self, watched: Option<SourceStatus>) -> (r: NextMove)
        ensures
            final(self)@ == (if pipeline_liveness(watched) is Err {
                old(self)@
            } else if pipeline_runs(watched) {
                old(self)@.advanced()
            } else {
                old(self)@.halted()
            }),
            match r {
                NextMove::End(outcome) => {
                    &&& outcome is Err
                    &&& outcome == pipeline_liveness(watched)
                },
                NextMove::Wait { millis, drop_arrived } => {
                    &&& pipeline_liveness(watched) is Ok
                    &&& !pipeline_runs(watched)
                    &&& millis == IDLE_SLEEP_MILLIS
                    &&& drop_arrived == old(self)@.has_run
                },
                NextMove::Take(frame) => {
                    &&& pipeline_liveness(watched) is Ok
                    &&& pipeline_runs(watched)
                    &&& old(self)@.backlog.len() > 0
                    &&& frame == old(self)@.backlog[0]
                },
                NextMove::Receive => {
                    &&& pipeline_liveness(watched) is Ok
                    &&& pipeline_runs(watched)
                    &&& old(self)@.backlog.len() == 0
                },
                NextMove::Again => false,
            },
    {
        let mut state: Option<PipelineState> = None;
        if let Some(status) = &watched {
            match check_live(status.has_bus, &status.pads_linked) {
                Ok(()) => {},
                Err(error) => {
                    return NextMove::End(Err(error));
                },
            }
            state = Some(status.state);
        }
        if !pipeline_running(state) {
            self.progress.started = false;
            return NextMove::Wait { millis: IDLE_SLEEP_MILLIS, drop_arrived: self.has_run };
        }
        self.has_run = true;
        match self.backlog.pop_front() {
            Some(frame) => {
                assert(self.backlog@ =~= old(self).backlog@.drop_first());
                NextMove::Take(frame)
            },
            None => NextMove::Receive,
        }
    }

    /// What to do next, where a frame of the camera stream was waited for. After a loss the
    /// client starts over at the next keyframe. Where the camera stream is over, so is feeding,
    /// in success.
    pub fn received(&mut self, arrival: Arrival) -> (r: NextMove)
        ensures
            final(self)@ == (if arrival is Lagged {
                old(self)@.halted()
            } else {
                old(self)@
            }),
            r == match arrival {
                Arrival::Frame(frame) => NextMove::Take(frame),
                Arrival::Lagged => NextMove::Again,
                Arrival::Closed => NextMove::End(Ok(())),
            },
    {
        match arrival {
            Arrival::Frame(frame) => NextMove::Take(frame),
            Arrival::Lagged => {
                self.progress.started = false;
                NextMove::Again
            },
            Arrival::Closed => NextMove::End(Ok(())),
        }
    }

    /// Do the clocks still fit in 32 bits once a frame has come?
    pub fn clocks_fit(&self, frame: &HubFrame, queued_bytes: u64) -> (r: bool)
        ensures
            r == self@.progress.fits(self@.step, *frame, queued_bytes > MAX_QUEUED_BYTES),
    {
        let leads = self.leads_to(frame, queued_bytes);
        let restarts = frame.is_keyframe() && !leads;
        if !leads && !restarts {
            return true;
        }
        match &frame.media {
            Media::Iframe { .. } | Media::Pframe { .. } => restarts
                || self.progress.vid_ts <= u32::MAX - self.vid_step,
            Media::Aac { .. } | Media::Adpcm { .. } => self.progress.aud_ts <= u32::MAX
                - frame.media.duration_or_zero(),
            _ => true,
        }
    }

    /// Do the frames that the client has been sent lead up to this one?
    fn leads_to(&self, frame: &HubFrame, queued_bytes: u64) -> (r: bool)
        ensures
            r == self.progress@.leads_to(*frame, queued_bytes > MAX_QUEUED_BYTES),
    {
        let same_epoch = match self.progress.epoch {
            Some(epoch) => epoch == frame.epoch,
            None => false,
        };
        self.progress.started && same_epoch && !(queued_bytes > MAX_QUEUED_BYTES)
    }

    /// Takes in a frame, while the pipeline has so many bytes queued. Gives the order to send
    /// it, if the client is to be sent it.
    ///
    /// Nothing is sent before a keyframe: not at first, not after the camera stream has been
    /// restarted, and not after the client has stopped reading. The clocks start at 0 with
    /// that keyframe.
    pub fn take_frame(&mut self, frame: &HubFrame, queued_bytes: u64) -> (r: Option<Push>)
        requires
            old(self)@.progress.fits(old(self)@.step, *frame, queued_bytes > MAX_QUEUED_BYTES),
        ensures
            final(self)@ == old(self)@.fed(*frame, queued_bytes > MAX_QUEUED_BYTES),
            r == old(self)@.order(*frame, queued_bytes > MAX_QUEUED_BYTES),
    {
        self.progress.started = self.leads_to(frame, queued_bytes);
        self.progress.epoch = Some(frame.epoch);
        if frame.is_keyframe() && !self.progress.started {
            self.progress.started = true;
            self.progress.vid_ts = 0;
            self.progress.aud_ts = 0;
        }
        if !self.progress.started {
            return None;
        }
        match &frame.media {
            Media::Iframe { .. } | Media::Pframe { .. } => {
                let ts: u32 = self.progress.vid_ts;
                self.progress.vid_ts = ts + self.vid_step;
                if self.sources.video {
                    Some(Push { track: Track::Video, ts })
                } else {
                    None
                }
            },
            Media::Aac { .. } | Media::Adpcm { .. } => {
                let ts: u32 = self.progress.aud_ts;
                self.progress.aud_ts = ts + frame.media.duration_or_zero();
                if self.sources.audio {
                    Some(Push { track: Track::Audio, ts })
                } else {
                    None
                }
            },
            _ => None,
        }
    }

    /// What to do next, once a frame has been pushed or passed over. Where the pipeline did not
    /// take it, the client starts over at the next keyframe. Where the push failed, feeding is
    /// over with that error.
    pub fn pushed(&mut self, outcome: Result<bool, FeedError>) -> (r: NextMove)
        ensures
            final(self)@ == (match outcome {
                Ok(taken) => old(self)@.settled(taken),
                Err(_) => old(self)@,
            }),
            r == match outcome {
                Ok(_) => NextMove::Again,
                Err(error) => NextMove::End(Err(error)),
            },
    {
        match outcome {
            Ok(taken) => {
                if !taken {
                    self.progress.started = false;
                }
                NextMove::Again
            },
            Err(error) => NextMove::End(Err(error)),
        }
    }
}

/// What can happen to a client between one move and the next.
pub enum ClientEvent {
    /// The pipeline is not running, and these frames are thrown away.
    Stopped { dropped: Seq<Arc<HubFrame>> },
    /// The next frame of the backlog is taken, while the client is reading or is not. Where it
    /// is sent, the pipeline takes it or refuses it.
    Take { stalled: bool, taken: bool },
    /// A frame of the camera stream is received, in the same way.
    Receive { frame: Arc<HubFrame>, stalled: bool, taken: bool },
    /// The client was too slow, and frames were lost.
    Lag,
}

impl ClientEvent {
    /// Does a frame come to a client that is not reading?
    pub open spec fn is_stalled(self) -> bool {
        match self {
            ClientEvent::Take { stalled, .. } => stalled,
            ClientEvent::Receive { stalled, .. } => stalled,
            _ => false,
        }
    }

    /// Does a frame come that the pipeline takes, where it is sent?
    pub open spec fn is_taken(self) -> bool {
        match self {
            ClientEvent::Take { taken, .. } => taken,
            ClientEvent::Receive { taken, .. } => taken,
            _ => false,
        }
    }
}

/// A frame that a client is sent, with its place among all that came to the client: first the
/// backlog, then what the client received.
pub struct Sent {
    pub place: int,
    pub frame: HubFrame,
    pub push: Push,
}

impl FeederView {
    /// Can this happen now? Frames are only thrown away once the pipeline has been running, and
    /// the camera stream is only received from once the backlog is used up.
    pub open spec fn allows(self, event: ClientEvent) -> bool {
        match event {
            ClientEvent::Stopped { dropped } => self.has_run || dropped.len() == 0,
            ClientEvent::Take { .. } => self.backlog.len() > 0,
            ClientEvent::Receive { .. } => self.backlog.len() == 0,
            ClientEvent::Lag => self.backlog.len() == 0,
        }
    }

    /// The frame that comes to the client, if one does.
    pub open spec fn frame_in(self, event: ClientEvent) -> Option<HubFrame> {
        match event {
            ClientEvent::Take { .. } => Some(*self.backlog[0]),
            ClientEvent::Receive { frame, .. } => Some(*frame),
            _ => None,
        }
    }

    /// The order that goes out when something happens.
    pub open spec fn order_in(self, event: ClientEvent) -> Option<Push> {
        match self.frame_in(event) {
            Some(frame) => self.advanced().order(frame, event.is_stalled()),
            None => None,
        }
    }

    /// Does a frame of this run of the camera stream come without a hitch? The client is
    /// reading, and a frame that is sent is taken.
    pub open spec fn is_smooth(self, event: ClientEvent, epoch: u64) -> bool {
        &&& self.frame_in(event) matches Some(frame) && frame.epoch == epoch
        &&& !event.is_stalled()
        &&& self.order_in(event) is Some ==> event.is_taken()
    }

    /// The client once a frame has come and, where it was sent, has been taken or refused.
    pub open spec fn handled(self, frame: HubFrame, stalled: bool, taken: bool) -> FeederView {
        if self.order(frame, stalled) is Some {
            self.fed(frame, stalled).settled(taken)
        } else {
            self.fed(frame, stalled)
        }
    }

    /// The client once something has happened.
    pub open spec fn after(self, event: ClientEvent) -> FeederView {
        match self.frame_in(event) {
            Some(frame) => self.advanced().handled(frame, event.is_stalled(), event.is_taken()),
            None => if event is Lag {
                self.advanced().halted()
            } else {
                self.halted()
            },
        }
    }
}

/// A client once several things have happened, one after the other.
pub open spec fn client_after(start: FeederView, events: Seq<ClientEvent>) -> FeederView
    decreases events.len(),
{
    if events.len() == 0 {
        start
    } else {
        client_after(start, events.drop_last()).after(events.last())
    }
}

/// The client when the event at this place happens.
pub open spec fn client_at(start: FeederView, events: Seq<ClientEvent>, i: int) -> FeederView {
    client_after(start, events.take(i))
}

/// Events of which each one could happen when it did.
pub open spec fn can_happen(start: FeederView, events: Seq<ClientEvent>) -> bool
    decreases events.len(),
{
    events.len() == 0 || (can_happen(start, events.drop_last()) && client_after(
        start,
        events.drop_last(),
    ).allows(events.last()))
}

/// The frames of the camera stream that came to a client, in the order in which they came. Those
/// that were thrown away are among them.
pub open spec fn received(events: Seq<ClientEvent>) -> Seq<Arc<HubFrame>>
    decreases events.len(),
{
    if events.len() == 0 {
        Seq::empty()
    } else {
        let before = received(events.drop_last());
        match events.last() {
            ClientEvent::Stopped { dropped } => before + dropped,
            ClientEvent::Receive { frame, .. } => before.push(frame),
            ClientEvent::Take { .. } => before,
            ClientEvent::Lag => before,
        }
    }
}

/// Everything that came to a client: the backlog, and behind it what the client received.
pub open spec fn stream_of(start: FeederView, events: Seq<ClientEvent>) -> Seq<Arc<HubFrame>> {
    start.backlog + received(events)
}

/// The place of the frame that the client gets next: the next one of the backlog or, where that
/// is used up, the next one of the camera stream.
pub open spec fn next_place(start: FeederView, events: Seq<ClientEvent>) -> int {
    let left = client_after(start, events).backlog.len();
    if left > 0 {
        start.backlog.len() - left
    } else {
        stream_of(start, events).len() as int
    }
}

/// Everything that a client is sent, in the order in which it is sent.
pub open spec fn sent_to(start: FeederView, events: Seq<ClientEvent>) -> Seq<Sent>
    decreases events.len(),
{
    if events.len() == 0 {
        Seq::empty()
    } else {
        let before = events.drop_last();
        let client = client_after(start, before);
        match client.order_in(events.last()) {
            Some(push) => sent_to(start, before).push(
                Sent {
                    place: next_place(start, before),
                    frame: client.frame_in(events.last())->0,
                    push,
                },
            ),
            None => sent_to(start, before),
        }
    }
}

/// Is this frame sent to the track of its kind, into a source that the client has?
pub open spec fn is_on_its_track(sources: Sources, frame: HubFrame, push: Push) -> bool {
    match push.track {
        Track::Video => (frame.media is Iframe || frame.media is Pframe) && sources.video,
        Track::Audio => (frame.media is Aac || frame.media is Adpcm) && sources.audio,
    }
}

/// Nothing is sent until the next keyframe: a client that has to wait for one is sent nothing
/// before one comes, whatever happens meanwhile.
pub proof fn law_nothing_before_a_keyframe(start: FeederView, events: Seq<ClientEvent>)
    requires
        !start.progress.started,
        forall|i: int|
            0 <= i < events.len() ==> ((#[trigger] client_at(start, events, i)).frame_in(
                events[i],
            ) matches Some(frame) ==> !(frame.media is Iframe)),
    ensures
        !client_after(start, events).progress.started,
        sent_to(start, events).len() == 0,
    decreases events.len(),
{
    if events.len() > 0 {
        let before = events.drop_last();
        assert forall|i: int| 0 <= i < before.len() implies ((#[trigger] client_at(
            start,
            before,
            i,
        )).frame_in(before[i]) matches Some(frame) ==> !(frame.media is Iframe)) by {
            lemma_client_at_drop_last(start, events, i);
        }
        law_nothing_before_a_keyframe(start, before);
        assert(client_at(start, events, events.len() - 1) == client_after(start, before));
    }
}

proof fn lemma_client_at_drop_last(start: FeederView, events: Seq<ClientEvent>, i: int)
    requires
        0 <= i < events.len(),
    ensures
        i < events.len() - 1 ==> client_at(start, events.drop_last(), i) == client_at(
            start,
            events,
            i,
        ) && events.drop_last()[i] == events[i],
        i == events.len() - 1 ==> client_at(start, events, i) == client_after(
            start,
            events.drop_last(),
        ),
{
    if i < events.len() - 1 {
        assert(events.drop_last().take(i) =~= events.take(i));
    } else {
        assert(events.take(i) =~= events.drop_last());
    }
}

/// A pipeline that is stopped, a loss and a refused frame all make the client wait for the next
/// keyframe.
pub proof fn law_interruptions_halt(client: FeederView, event: ClientEvent)
    requires
        event is Stopped || event is Lag || (client.order_in(event) is Some && !event.is_taken()),
    ensures
        !client.after(event).progress.started,
{
}

/// The first frame that a client is sent is a keyframe, and it plays at time 0.
pub proof fn law_a_keyframe_is_sent_first(start: FeederView, events: Seq<ClientEvent>)
    requires
        can_happen(start, events),
        start.sources.video,
        !start.progress.started,
    ensures
        sent_to(start, events).len() > 0 ==> {
            &&& sent_to(start, events)[0].frame.media is Iframe
            &&& sent_to(start, events)[0].push == (Push { track: Track::Video, ts: 0 })
        },
{
    assert(Seq::<ClientEvent>::empty() + events =~= events);
    law_a_keyframe_is_sent_next(start, Seq::empty(), events);
}

/// Whenever a client has to wait for a keyframe, the next frame that it is sent plays at time 0,
/// and it is a keyframe where the client has a source for video.
pub proof fn law_a_keyframe_is_sent_next(
    start: FeederView,
    early: Seq<ClientEvent>,
    later: Seq<ClientEvent>,
)
    requires
        can_happen(start, early + later),
        !client_after(start, early).progress.started,
    ensures
        sent_to(start, early + later).len() >= sent_to(start, early).len(),
        sent_to(start, early + later).len() > sent_to(start, early).len() ==> {
            let next = sent_to(start, early + later)[sent_to(start, early).len() as int];
            &&& next.push.ts == 0
            &&& start.sources.video ==> next.frame.media is Iframe && next.push.track == Track::Video
        },
{
    lemma_next_sent(start, early, later);
}

/// As long as nothing more is sent, a client with a source for video goes on waiting, and one
/// without has its clock for audio at 0.
proof fn lemma_next_sent(start: FeederView, early: Seq<ClientEvent>, later: Seq<ClientEvent>)
    requires
        can_happen(start, early + later),
        !client_after(start, early).progress.started,
    ensures
        sent_to(start, early + later).len() >= sent_to(start, early).len(),
        sent_to(start, early + later).len() > sent_to(start, early).len() ==> {
            let next = sent_to(start, early + later)[sent_to(start, early).len() as int];
            &&& next.push.ts == 0
            &&& start.sources.video ==> next.frame.media is Iframe && next.push.track == Track::Video
        },
        sent_to(start, early + later).len() == sent_to(start, early).len() && client_after(
            start,
            early + later,
        ).progress.started ==> !start.sources.video && (start.sources.audio ==> client_after(
            start,
            early + later,
        ).progress.aud_ts == 0),
    decreases later.len(),
{
    if later.len() == 0 {
        assert(early + later =~= early);
    } else {
        let before = later.drop_last();
        assert((early + later).drop_last() =~= early + before);
        assert((early + later).last() == later.last());
        lemma_next_sent(start, early, before);
        lemma_backlog_is_used_up_in_order(start, early + before);
    }
}

/// Has a client got the keyframe that comes at one place and every frame that came since, up to
/// another place? All of them are of one run of the camera stream, all that were sent were taken,
/// and nothing was thrown away or known to be lost in between.
pub open spec fn unbroken_since(
    start: FeederView,
    events: Seq<ClientEvent>,
    key: int,
    end: int,
    epoch: u64,
) -> bool {
    &&& 0 <= key < end
    &&& client_at(start, events, key).frame_in(events[key]) matches Some(frame)
        && frame.media is Iframe && frame.epoch == epoch
    &&& client_at(start, events, key).order_in(events[key]) is Some ==> events[key].is_taken()
    &&& forall|i: int|
        key < i < end ==> (#[trigger] client_at(start, events, i)).is_smooth(events[i], epoch)
}

/// A client that is running has got a keyframe, and every frame that came to the client since is
/// from the same run of the camera stream. Frames that were lost on the way never came.
pub proof fn law_running_builds_on_a_keyframe(
    start: FeederView,
    events: Seq<ClientEvent>,
) -> (key: int)
    requires
        !start.progress.started,
        client_after(start, events).progress.started,
    ensures
        client_after(start, events).progress.epoch is Some,
        unbroken_since(
            start,
            events,
            key,
            events.len() as int,
            client_after(start, events).progress.epoch->0,
        ),
    decreases events.len(),
{
    let before = events.drop_last();
    let last = events.len() - 1;
    lemma_client_at_drop_last(start, events, last);
    let client = client_at(start, events, last);
    let frame = client.frame_in(events[last])->0;
    if frame.media is Iframe {
        last
    } else {
        assert(client.progress.leads_to(frame, events[last].is_stalled()));
        let key = law_running_builds_on_a_keyframe(start, before);
        lemma_client_at_drop_last(start, events, key);
        assert forall|i: int| key < i < events.len() implies (#[trigger] client_at(
            start,
            events,
            i,
        )).is_smooth(events[i], frame.epoch) by {
            lemma_client_at_drop_last(start, events, i);
        }
        key
    }
}

/// Every frame that a client is sent is a keyframe or builds on one: the client has got that
/// keyframe, and every frame that came to the client since is from the same run of the camera
/// stream. After a stop, a loss that the client was told of, a refused frame, a restart of the
/// camera or a full queue, that keyframe is a new one.
pub proof fn law_sent_frames_build_on_a_keyframe(
    start: FeederView,
    events: Seq<ClientEvent>,
    at: int,
) -> (key: int)
    requires
        !start.progress.started,
        0 <= at < events.len(),
        client_at(start, events, at).order_in(events[at]) is Some,
        !((client_at(start, events, at).frame_in(events[at])->0).media is Iframe),
    ensures
        unbroken_since(
            start,
            events,
            key,
            at,
            (client_at(start, events, at).frame_in(events[at])->0).epoch,
        ),
        !events[at].is_stalled(),
{
    let before = events.take(at);
    let key = law_running_builds_on_a_keyframe(start, before);
    assert(before.take(key) =~= events.take(key));
    assert forall|i: int| key < i < at implies (#[trigger] client_at(start, events, i)).is_smooth(
        events[i],
        (client_at(start, events, at).frame_in(events[at])->0).epoch,
    ) by {
        assert(before.take(i) =~= events.take(i));
        assert(client_at(start, before, i) == client_at(start, events, i));
    }
    key
}

/// How long a frame plays on the clock for audio, in microseconds.
pub open spec fn audio_micros(frame: HubFrame) -> nat {
    match frame.media {
        Media::Aac { duration: Some(micros), .. } => micros as nat,
        Media::Adpcm { duration: Some(micros), .. } => micros as nat,
        _ => 0,
    }
}

/// How many video frames come.
pub open spec fn video_frames(start: FeederView, events: Seq<ClientEvent>) -> nat
    decreases events.len(),
{
    if events.len() == 0 {
        0
    } else {
        let before = events.drop_last();
        video_frames(start, before) + match client_after(start, before).frame_in(events.last()) {
            Some(frame) if frame.media is Iframe || frame.media is Pframe => 1nat,
            _ => 0nat,
        }
    }
}

/// How much audio comes, in microseconds.
pub open spec fn audio_time(start: FeederView, events: Seq<ClientEvent>) -> nat
    decreases events.len(),
{
    if events.len() == 0 {
        0
    } else {
        let before = events.drop_last();
        audio_time(start, before) + match client_after(start, before).frame_in(events.last()) {
            Some(frame) => audio_micros(frame),
            None => 0nat,
        }
    }
}

/// The clocks run with the frames: while nothing interrupts a client, each video frame moves
/// the video clock by one step, and each audio frame moves the audio clock by its duration.
pub proof fn law_clocks_run_with_the_frames(
    start: FeederView,
    events: Seq<ClientEvent>,
    epoch: u64,
)
    requires
        start.progress.started,
        start.progress.epoch == Some(epoch),
        forall|i: int|
            0 <= i < events.len() ==> (#[trigger] client_at(start, events, i)).is_smooth(
                events[i],
                epoch,
            ),
    ensures
        client_after(start, events).progress == (ProgressView {
            started: true,
            epoch: Some(epoch),
            vid_ts: start.progress.vid_ts + start.step as nat * video_frames(start, events),
            aud_ts: start.progress.aud_ts + audio_time(start, events),
        }),
        client_after(start, events).step == start.step,
    decreases events.len(),
{
    let step = start.step as nat;
    if events.len() == 0 {
        assert(step * video_frames(start, events) == 0) by (nonlinear_arith)
            requires
                video_frames(start, events) == 0,
        ;
    } else {
        let before = events.drop_last();
        assert forall|i: int| 0 <= i < before.len() implies (#[trigger] client_at(
            start,
            before,
            i,
        )).is_smooth(before[i], epoch) by {
            lemma_client_at_drop_last(start, events, i);
            assert(client_at(start, events, i).is_smooth(events[i], epoch));
        }
        law_clocks_run_with_the_frames(start, before, epoch);
        lemma_client_at_drop_last(start, events, events.len() - 1);
        assert(client_at(start, events, events.len() - 1).is_smooth(events.last(), epoch));
        let n = video_frames(start, before);
        assert(step * (n + 1) == step * n + step) by (nonlinear_arith);
    }
}

/// The events of a client that is reading and takes so many frames of its backlog.
pub open spec fn takes(n: nat) -> Seq<ClientEvent> {
    Seq::new(n, |i: int| ClientEvent::Take { stalled: false, taken: true })
}

/// A new client gets a keyframe straight away, and the rest of the backlog behind it: of a
/// group of pictures of one run, every frame that the client has a source for is sent, and the
/// first one plays at time 0.
pub proof fn law_backlog_is_sent(
    sources: Sources,
    step: u32,
    kept: Seq<Arc<HubFrame>>,
    epoch: u64,
    i: int,
)
    requires
        crate::gop::is_gop(kept),
        forall|k: int| 0 <= k < kept.len() ==> (#[trigger] kept[k]).epoch == epoch,
        0 <= i < kept.len(),
    ensures
        can_happen(FeederView::opened(sources, step, kept), takes(kept.len())),
        client_at(FeederView::opened(sources, step, kept), takes(kept.len()), i).frame_in(
            takes(kept.len())[i],
        ) == Some(*kept[i]),
        client_at(FeederView::opened(sources, step, kept), takes(kept.len()), i).order_in(
            takes(kept.len())[i],
        ) is Some <==> ((kept[i].media is Iframe || kept[i].media is Pframe) && sources.video || (
        kept[i].media is Aac || kept[i].media is Adpcm) && sources.audio),
        i == 0 && sources.video ==> client_at(
            FeederView::opened(sources, step, kept),
            takes(kept.len()),
            i,
        ).order_in(takes(kept.len())[i]) == Some(Push { track: Track::Video, ts: 0 }),
{
    lemma_backlog_runs(sources, step, kept, epoch, kept.len());
    lemma_backlog_runs(sources, step, kept, epoch, i as nat);
    assert(takes(kept.len()).take(i) =~= takes(i as nat));
    assert(kept.skip(i)[0] == kept[i]);
}

proof fn lemma_backlog_runs(
    sources: Sources,
    step: u32,
    kept: Seq<Arc<HubFrame>>,
    epoch: u64,
    n: nat,
)
    requires
        crate::gop::is_gop(kept),
        forall|k: int| 0 <= k < kept.len() ==> (#[trigger] kept[k]).epoch == epoch,
        n <= kept.len(),
    ensures
        can_happen(FeederView::opened(sources, step, kept), takes(n)),
        ({
            let client = client_after(FeederView::opened(sources, step, kept), takes(n));
            &&& client.sources == sources
            &&& client.backlog == kept.skip(n as int)
            &&& n > 0 ==> client.progress.started && client.progress.epoch == Some(epoch)
            &&& n == 0 ==> client.progress == ProgressView::initial()
        }),
    decreases n,
{
    if n == 0 {
        assert(kept.skip(0) =~= kept);
    } else {
        let m = (n - 1) as nat;
        lemma_backlog_runs(sources, step, kept, epoch, m);
        assert(takes(n).drop_last() =~= takes(m));
        assert(kept.skip(m as int)[0] == kept[m as int]);
        assert(kept.skip(m as int).drop_first() =~= kept.skip(n as int));
        assert(kept[m as int].epoch == epoch);
    }
}

/// A client is sent the frames that came to it and no others, each one at most once and in the
/// order in which they came, the backlog first. Each one goes unchanged to the track of its kind.
pub proof fn law_frames_are_sent_in_order(start: FeederView, events: Seq<ClientEvent>)
    requires
        can_happen(start, events),
    ensures
        forall|i: int, j: int|
            0 <= i < j < sent_to(start, events).len() ==> (#[trigger] sent_to(
                start,
                events,
            )[i]).place < (#[trigger] sent_to(start, events)[j]).place,
        forall|i: int|
            0 <= i < sent_to(start, events).len() ==> {
                let sent = #[trigger] sent_to(start, events)[i];
                &&& 0 <= sent.place < stream_of(start, events).len()
                &&& sent.frame == *stream_of(start, events)[sent.place]
                &&& is_on_its_track(start.sources, sent.frame, sent.push)
            },
    decreases events.len(),
{
    if events.len() > 0 {
        let before = events.drop_last();
        law_frames_are_sent_in_order(start, before);
        lemma_backlog_is_used_up_in_order(start, before);
        lemma_places_are_behind(start, before);
        let client = client_after(start, before);
        let old_sent = sent_to(start, before);
        let sent = sent_to(start, events);
        let all = stream_of(start, events);
        assert forall|k: int| 0 <= k < stream_of(start, before).len() implies all[k] == stream_of(
            start,
            before,
        )[k] by {}
        assert forall|i: int| 0 <= i < sent.len() implies {
            let one = #[trigger] sent[i];
            &&& 0 <= one.place < all.len()
            &&& one.frame == *all[one.place]
            &&& is_on_its_track(start.sources, one.frame, one.push)
        } by {
            if i < old_sent.len() {
                assert(sent[i] == old_sent[i]);
            }
        }
        assert forall|i: int, j: int| 0 <= i < j < sent.len() implies (#[trigger] sent[i]).place < (
        #[trigger] sent[j]).place by {
            assert(sent[i] == old_sent[i]);
            if j < old_sent.len() {
                assert(sent[j] == old_sent[j]);
            }
        }
    }
}

/// What is left of the backlog is its end, and the sources stay.
proof fn lemma_backlog_is_used_up_in_order(start: FeederView, events: Seq<ClientEvent>)
    requires
        can_happen(start, events),
    ensures
        client_after(start, events).sources == start.sources,
        client_after(start, events).backlog.len() <= start.backlog.len(),
        client_after(start, events).backlog == start.backlog.skip(
            start.backlog.len() - client_after(start, events).backlog.len(),
        ),
    decreases events.len(),
{
    if events.len() > 0 {
        lemma_backlog_is_used_up_in_order(start, events.drop_last());
    }
    assert(client_after(start, events).backlog =~= start.backlog.skip(
        start.backlog.len() - client_after(start, events).backlog.len(),
    ));
}

/// Everything that has been sent lies before what comes next.
proof fn lemma_places_are_behind(start: FeederView, events: Seq<ClientEvent>)
    requires
        can_happen(start, events),
    ensures
        forall|i: int|
            0 <= i < sent_to(start, events).len() ==> (#[trigger] sent_to(start, events)[i]).place
                < next_place(start, events),
    decreases events.len(),
{
    if events.len() > 0 {
        let before = events.drop_last();
        lemma_places_are_behind(start, before);
        lemma_backlog_is_used_up_in_order(start, before);
        let old_sent = sent_to(start, before);
        let sent = sent_to(start, events);
        assert forall|i: int| 0 <= i < sent.len() implies (#[trigger] sent[i]).place < next_place(
            start,
            events,
        ) by {
            if i < old_sent.len() {
                assert(sent[i] == old_sent[i]);
            }
        }
    }
}

/// Frames that arrive while the pipeline is stopped are dropped: of those that are thrown away
/// then, the client is never sent one.
pub proof fn law_dropped_frames_are_not_sent(start: FeederView, events: Seq<ClientEvent>, at: int)
    requires
        can_happen(start, events),
        0 <= at < events.len(),
        events[at] is Stopped,
    ensures
        stream_of(start, events.take(at + 1)) == stream_of(start, events.take(at))
            + events[at]->dropped,
        forall|i: int|
            0 <= i < sent_to(start, events).len() ==> !(stream_of(start, events.take(at)).len()
                <= (#[trigger] sent_to(start, events)[i]).place < stream_of(
                start,
                events.take(at + 1),
            ).len()),
    decreases events.len(),
{
    assert(events.take(at + 1).drop_last() =~= events.take(at));
    assert(stream_of(start, events.take(at + 1)) =~= stream_of(start, events.take(at))
        + events[at]->dropped);
    let before = events.drop_last();
    if at == events.len() - 1 {
        assert(events.take(at) =~= before);
        lemma_places_are_behind(start, before);
        lemma_backlog_is_used_up_in_order(start, before);
    } else {
        law_dropped_frames_are_not_sent(start, before, at);
        assert(before.take(at) =~= events.take(at));
        assert(before.take(at + 1) =~= events.take(at + 1));
        lemma_stream_grows(start, before, at + 1);
        lemma_backlog_is_used_up_in_order(start, before);
        let old_sent = sent_to(start, before);
        let sent = sent_to(start, events);
        assert forall|i: int| 0 <= i < sent.len() implies !(stream_of(start, events.take(at)).len()
            <= (#[trigger] sent[i]).place < stream_of(start, events.take(at + 1)).len()) by {
            if i < old_sent.len() {
                assert(sent[i] == old_sent[i]);
            }
        }
    }
}

proof fn lemma_stream_grows(start: FeederView, events: Seq<ClientEvent>, n: int)
    requires
        0 <= n <= events.len(),
    ensures
        stream_of(start, events.take(n)).len() <= stream_of(start, events).len(),
    decreases events.len(),
{
    if n < events.len() {
        lemma_stream_grows(start, events.drop_last(), n);
        assert(events.drop_last().take(n) =~= events.take(n));
    } else {
        assert(events.take(n) =~= events);
    }
}

/// A frame that the client has no source for is passed over: it is not sent, and the client need
/// not wait for a keyframe on its account.
pub proof fn law_frames_without_a_source_are_passed_over(
    client: FeederView,
    frame: HubFrame,
    stalled: bool,
    taken: bool,
)
    requires
        !((frame.media is Iframe || frame.media is Pframe) && client.sources.video),
        !((frame.media is Aac || frame.media is Adpcm) && client.sources.audio),
    ensures
        client.order(frame, stalled) is None,
        client.handled(frame, stalled, taken) == client.fed(frame, stalled),
        client.progress.leads_to(frame, stalled) ==> client.handled(
            frame,
            stalled,
            taken,
        ).progress.started,
{
}

/// A client that is reading once several frames have come, one after the other.
pub open spec fn fed_all(client: FeederView, frames: Seq<HubFrame>) -> FeederView
    decreases frames.len(),
{
    if frames.len() == 0 {
        client
    } else {
        fed_all(client, frames.drop_last()).fed(frames.last(), false)
    }
}

/// How many of some frames are video.
pub open spec fn video_among(frames: Seq<HubFrame>) -> nat
    decreases frames.len(),
{
    if frames.len() == 0 {
        0
    } else {
        video_among(frames.drop_last()) + if frames.last().media is Iframe
            || frames.last().media is Pframe {
            1nat
        } else {
            0nat
        }
    }
}

/// How long all the audio among some frames plays, in microseconds.
pub open spec fn audio_among(frames: Seq<HubFrame>) -> nat
    decreases frames.len(),
{
    if frames.len() == 0 {
        0
    } else {
        audio_among(frames.drop_last()) + audio_micros(frames.last())
    }
}

/// Must the client wait for a keyframe, when a frame comes? It must if it has been waiting, if the
/// frame is of another run of the camera stream, or if it is not reading.
pub open spec fn waits_for_key(client: FeederView, frame: HubFrame, stalled: bool) -> bool {
    stalled || !client.progress.started || client.progress.epoch != Some(frame.epoch)
}

/// A client that waits is sent nothing but an I-frame, whatever that is encoded with, and that
/// plays at time 0. With any other frame it goes on waiting.
pub proof fn law_a_waiting_client_starts_with_an_iframe(
    client: FeederView,
    frame: HubFrame,
    stalled: bool,
)
    requires
        waits_for_key(client, frame, stalled),
    ensures
        frame.media is Iframe ==> {
            &&& client.sources.video ==> client.order(frame, stalled) == Some(
                Push { track: Track::Video, ts: 0 },
            )
            &&& !client.sources.video ==> client.order(frame, stalled) is None
            &&& client.fed(frame, stalled).progress.started
            &&& client.progress.fits(client.step, frame, stalled)
        },
        !(frame.media is Iframe) ==> {
            &&& client.order(frame, stalled) is None
            &&& !client.fed(frame, stalled).progress.started
            &&& client.progress.vid_ts <= 0xFFFF_FFFF && client.progress.aud_ts <= 0xFFFF_FFFF
                ==> client.progress.fits(client.step, frame, stalled)
        },
        client.fed(frame, stalled).progress.epoch == Some(frame.epoch),
{
}

/// The time at which a frame plays is what the clock of its track says. That of video says how
/// many video frames have come since the I-frame that the client started with, that one included,
/// times the step. That of audio says how long all the audio since plays, whatever its encoding. A
/// frame goes out if the client has a source for it, and stream information never does. The clocks
/// fit exactly as long as both times fit in 32 bits.
pub proof fn law_the_clocks_tell_when_a_frame_plays(
    client: FeederView,
    key: HubFrame,
    stalled: bool,
    frames: Seq<HubFrame>,
    frame: HubFrame,
)
    requires
        key.media is Iframe,
        waits_for_key(client, key, stalled),
        forall|i: int| 0 <= i < frames.len() ==> (#[trigger] frames[i]).epoch == key.epoch,
        frame.epoch == key.epoch,
        client.step * (1 + video_among(frames)) <= 0xFFFF_FFFF,
        audio_among(frames) <= 0xFFFF_FFFF,
    ensures
        ({
            let now = fed_all(client.fed(key, stalled), frames);
            let order = now.order(frame, false);
            &&& frame.media is Iframe || frame.media is Pframe ==> {
                &&& order is Some <==> client.sources.video
                &&& order matches Some(push) ==> push.track == Track::Video && push.ts
                    == client.step * (1 + video_among(frames))
            }
            &&& frame.media is Aac || frame.media is Adpcm ==> {
                &&& order is Some <==> client.sources.audio
                &&& order matches Some(push) ==> push.track == Track::Audio && push.ts
                    == audio_among(frames)
            }
            &&& frame.media is InfoV1 || frame.media is InfoV2 ==> order is None
            &&& now.progress.fits(now.step, frame, false) <==> client.step * (1 + video_among(
                frames.push(frame),
            )) <= 0xFFFF_FFFF && audio_among(frames.push(frame)) <= 0xFFFF_FFFF
        }),
{
    lemma_clocks_since_a_key(client, key, stalled, frames);
    assert(frames.push(frame).drop_last() =~= frames);
    let step = client.step as int;
    let n = video_among(frames) as int;
    assert(step * (1 + (n + 1)) == step * (1 + n) + step) by (nonlinear_arith);
}

proof fn lemma_clocks_since_a_key(
    client: FeederView,
    key: HubFrame,
    stalled: bool,
    frames: Seq<HubFrame>,
)
    requires
        key.media is Iframe,
        waits_for_key(client, key, stalled),
        forall|i: int| 0 <= i < frames.len() ==> (#[trigger] frames[i]).epoch == key.epoch,
    ensures
        ({
            let now = fed_all(client.fed(key, stalled), frames);
            &&& now.sources == client.sources
            &&& now.step == client.step
            &&& now.progress.started
            &&& now.progress.epoch == Some(key.epoch)
            &&& now.progress.vid_ts == client.step * (1 + video_among(frames))
            &&& now.progress.aud_ts == audio_among(frames)
        }),
    decreases frames.len(),
{
    let step = client.step as int;
    if frames.len() == 0 {
        assert(step * (1 + 0) == step) by (nonlinear_arith);
    } else {
        let before = frames.drop_last();
        assert forall|i: int| 0 <= i < before.len() implies (#[trigger] before[i]).epoch
            == key.epoch by {
            assert(before[i] == frames[i]);
        }
        lemma_clocks_since_a_key(client, key, stalled, before);
        assert(frames[frames.len() - 1].epoch == key.epoch);
        let n = video_among(before) as int;
        assert(step * (1 + (n + 1)) == step * (1 + n) + step) by (nonlinear_arith);
    }
}

/// Frames of one track play one behind the other: of two audio frames in a row the second one
/// plays later by the duration of the first, whatever their encodings, and of two video frames by
/// one step. A frame of the other track in between takes nothing off and adds nothing.
pub proof fn law_frames_of_a_track_play_one_behind_the_other(
    client: FeederView,
    first: HubFrame,
    second: HubFrame,
)
    requires
        !waits_for_key(client, first, false),
        second.epoch == first.epoch,
        client.progress.vid_ts + client.step <= 0xFFFF_FFFF,
        client.progress.aud_ts + audio_micros(first) <= 0xFFFF_FFFF,
    ensures
        client.sources.audio && (first.media is Aac || first.media is Adpcm) && (
        second.media is Aac || second.media is Adpcm) ==> {
            let earlier = client.order(first, false);
            let later = client.fed(first, false).order(second, false);
            &&& earlier is Some && earlier->0.track == Track::Audio
            &&& later is Some && later->0.track == Track::Audio
            &&& later->0.ts == earlier->0.ts + audio_micros(first)
        },
        client.sources.video && (first.media is Iframe || first.media is Pframe) && (
        second.media is Iframe || second.media is Pframe) ==> {
            let earlier = client.order(first, false);
            let later = client.fed(first, false).order(second, false);
            &&& earlier is Some && earlier->0.track == Track::Video
            &&& later is Some && later->0.track == Track::Video
            &&& later->0.ts == earlier->0.ts + client.step
        },
        (first.media is Aac || first.media is Adpcm) != (second.media is Aac
            || second.media is Adpcm) ==> client.fed(first, false).order(second, false)
            == client.order(second, false),
{
}

/// A frame that comes moves the clocks and nothing else. A round takes one frame out of the
/// backlog, and a stop, a loss and a refused frame only make the client wait. A frame that is taken
/// leaves everything as it is.
pub proof fn law_each_step_changes_its_own_part(
    client: FeederView,
    frame: HubFrame,
    stalled: bool,
)
    ensures
        client.fed(frame, stalled) == (FeederView {
            progress: client.fed(frame, stalled).progress,
            ..client
        }),
        client.advanced().has_run,
        client.advanced() == (FeederView {
            has_run: true,
            backlog: client.advanced().backlog,
            ..client
        }),
        client.backlog.len() > 0 ==> client.advanced().backlog == client.backlog.skip(1),
        client.backlog.len() == 0 ==> client.advanced().backlog.len() == 0,
        !client.halted().progress.started,
        client.halted() == (FeederView {
            progress: ProgressView { started: false, ..client.progress },
            ..client
        }),
        client.settled(true) == client,
        client.settled(false) == client.halted(),
{
}

/// A new client has the whole backlog before it, waits for a keyframe, and has its clocks at 0.
pub proof fn law_a_new_client_waits(
    sources: Sources,
    step: u32,
    backlog: Seq<Arc<HubFrame>>,
    frame: HubFrame,
)
    ensures
        waits_for_key(FeederView::opened(sources, step, backlog), frame, false),
        FeederView::opened(sources, step, backlog).backlog == backlog,
        FeederView::opened(sources, step, backlog).sources == sources,
        FeederView::opened(sources, step, backlog).step == step,
        !FeederView::opened(sources, step, backlog).has_run,
        FeederView::opened(sources, step, backlog).progress.epoch is None,
        FeederView::opened(sources, step, backlog).progress.vid_ts == 0,
        FeederView::opened(sources, step, backlog).progress.aud_ts == 0,
{
}

/// A source on a bus can be fed exactly where every one of its pads is linked. One pad that is not
/// is enough to stop, at whatever place it stands and whatever the others are, and so is the want
/// of a bus.
pub proof fn law_one_unlinked_pad_is_enough(pads_linked: Seq<bool>, k: int)
    ensures
        liveness(true, pads_linked) is Ok <==> forall|i: int|
            0 <= i < pads_linked.len() ==> pads_linked[i],
        0 <= k < pads_linked.len() && !pads_linked[k] ==> liveness(true, pads_linked) == Err::<
            (),
            FeedError,
        >(FeedError::NotLinked),
        0 <= k < pads_linked.len() ==> liveness(true, pads_linked.update(k, false)) == Err::<
            (),
            FeedError,
        >(FeedError::NotLinked),
        liveness(false, pads_linked) == Err::<(), FeedError>(FeedError::Closed),
{
    if exists|i: int| 0 <= i < pads_linked.len() && !pads_linked[i] {
        let i = choose|i: int| 0 <= i < pads_linked.len() && !pads_linked[i];
        assert(pads_linked.contains(pads_linked[i]));
    }
    if 0 <= k < pads_linked.len() {
        assert(pads_linked.contains(pads_linked[k]));
        let cut = pads_linked.update(k, false);
        assert(cut[k] == false);
        assert(cut.contains(false));
    }
}

/// The watched source stands for the pipeline: the pipeline can be fed where that source can, and
/// runs where that source is paused or playing and in no other state. A pipeline without a source
/// never fails and never runs. The video source is watched before the audio source.
pub proof fn law_the_watched_source_stands_for_the_pipeline(status: SourceStatus, sources: Sources)
    ensures
        pipeline_liveness(Some(status)) is Ok <==> status.has_bus && forall|i: int|
            0 <= i < status.pads_linked@.len() ==> status.pads_linked@[i],
        pipeline_liveness(Some(status)) == Err::<(), FeedError>(FeedError::Closed)
            <==> !status.has_bus,
        pipeline_liveness(Some(status)) is Ok || pipeline_liveness(Some(status)) == Err::<
            (),
            FeedError,
        >(FeedError::Closed) || pipeline_liveness(Some(status)) == Err::<(), FeedError>(
            FeedError::NotLinked,
        ),
        pipeline_liveness(None) is Ok,
        pipeline_runs(Some(status)) <==> status.state is Paused || status.state is Playing,
        !pipeline_runs(None),
        is_running(Some(status.state)) <==> status.state is Paused || status.state is Playing,
        !is_running(None),
        watched_track(sources) == Some(Track::Video) <==> sources.video,
        watched_track(sources) == Some(Track::Audio) <==> sources.audio && !sources.video,
        watched_track(sources) is None <==> !sources.audio && !sources.video,
{
    law_one_unlinked_pad_is_enough(status.pads_linked@, 0);
}

/// The text of a streaming error ends with the reason in full, whatever it is.
pub proof fn law_the_reason_is_reported_in_full(reason: String)
    ensures
        feed_error_text(FeedError::Streaming(reason)).len() == 20 + reason@.len(),
        feed_error_text(FeedError::Streaming(reason)).skip(20) == reason@,
        feed_error_text(FeedError::Streaming(reason)).take(20) == "Error in streaming: "@,
        feed_error_text(FeedError::Closed) == "App source is closed"@,
        feed_error_text(FeedError::NotLinked) == "App source is not linked"@,
{
    reveal_strlit("Error in streaming: ");
    assert(feed_error_text(FeedError::Streaming(reason)).skip(20) =~= reason@);
    assert(feed_error_text(FeedError::Streaming(reason)).take(20) =~= "Error in streaming: "@);
}

/// The models of a client show its fields as they are.
pub proof fn law_the_models_of_a_client_are_faithful(feeder: Feeder, progress: Progress)
    ensures
        feeder@.sources == feeder.sources,
        feeder@.step == feeder.vid_step,
        feeder@.backlog == feeder.backlog@,
        feeder@.has_run == feeder.has_run,
        feeder@.progress == feeder.progress@,
        progress@.started == progress.started,
        progress@.epoch == progress.epoch,
        progress@.vid_ts == progress.vid_ts,
        progress@.aud_ts == progress.aud_ts,
{
}

/// The bounds on feeding: 1024 frames may wait for a slow client, and 6 MiB may be queued for it.
/// A stopped pipeline is looked at every 10 milliseconds, and a second has 1000000 microseconds.
pub proof fn law_the_bounds_on_feeding()
    ensures
        BROADCAST_CAPACITY == 1024,
        MAX_QUEUED_BYTES == 6 * 1024 * 1024,
        IDLE_SLEEP_MILLIS == 10,
        MICROSECONDS == 1000 * 1000,
{
}

} // verus!
