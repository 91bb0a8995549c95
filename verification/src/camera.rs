//! The life of the one camera stream: when it is opened, what is done with its media, and when
//! it is closed again.

use std::sync::Arc;
use vstd::prelude::*;

use crate::clients::stream_wanted;
use crate::config::{taught_by, StreamConfig, StreamConfigView};
use crate::gop::{is_gop, published, Gop};
use crate::media::{HubFrame, Media};

verus! {

/// How many seconds the camera stream is kept open after the last RTSP client has left.
pub const IDLE_GRACE_SECS: u64 = 30;

/// How many seconds a new client waits for the camera to deliver its first frames.
pub const CONFIG_TIMEOUT_SECS: u64 = 20;

/// How many milliseconds pass before a camera stream that failed is tried again.
pub const RETRY_PAUSE_MILLIS: u64 = 500;

/// Packets after which the configuration is taken as it is, complete or not.
pub const LEARNING_PACKETS: usize = 10;

/// Why a camera stream comes to its end.
#[derive(Clone, Copy, Debug, PartialEq, Eq, Structural)]
pub enum StreamEnd {
    /// The camera stopped sending.
    Closed,
    /// Nobody has been watching for a while.
    Idle,
}

/// One run of the camera stream, from its opening to its end.
#[derive(Debug)]
pub struct CameraSession {
    /// What is known of the stream so far.
    pub config: StreamConfig,
    /// Has the configuration been handed out?
    pub learned: bool,
    /// The packets that came until the configuration was handed out.
    pub packets: usize,
    /// Is the stream going to be closed unless a client comes?
    pub unwatched: bool,
}

/// The mathematical model of a `CameraSession`.
#[verifier::ext_equal]
pub struct CameraSessionView {
    pub config: StreamConfigView,
    pub learned: bool,
    pub packets: nat,
    pub unwatched: bool,
}

impl View for CameraSession {
    type V = CameraSessionView;

    open spec fn view(&self) -> CameraSessionView {
        CameraSessionView {
            config: self.config@,
            learned: self.learned,
            packets: self.packets as nat,
            unwatched: self.unwatched,
        }
    }
}

impl CameraSessionView {
    /// A run whose configuration is handed out after its first packets at the latest.
    pub open spec fn wf(self) -> bool {
        !self.learned ==> self.packets <= LEARNING_PACKETS
    }

    /// A run that has just been opened, with this many clients.
    pub open spec fn opened(config: StreamConfigView, clients: usize) -> CameraSessionView {
        CameraSessionView { config, learned: false, packets: 0, unwatched: clients == 0 }
    }

    /// Is the configuration handed out with this packet?
    pub open spec fn learns_with(self, media: Media) -> bool {
        !self.learned && (self.packets + 1 > LEARNING_PACKETS || self.config.taught(
            media,
        ).is_complete())
    }

    /// The run once a packet has come.
    pub open spec fn advanced(self, media: Media) -> CameraSessionView {
        CameraSessionView {
            config: self.config.taught(media),
            learned: self.learned || self.learns_with(media),
            packets: if self.learned {
                self.packets
            } else {
                self.packets + 1
            },
            unwatched: self.unwatched,
        }
    }

    /// The run once the number of clients has changed.
    pub open spec fn watched_by(self, clients: usize) -> CameraSessionView {
        CameraSessionView { unwatched: clients == 0, ..self }
    }
}

/// The countdown to the end of a stream, in seconds, where nobody is watching.
pub open spec fn countdown(clients: usize) -> Option<u64> {
    if clients == 0 {
        Some(IDLE_GRACE_SECS)
    } else {
        None
    }
}

impl CameraSession {
    /// A run that has just been opened, with this many clients.
    pub fn new(config: StreamConfig, clients: usize) -> (r: CameraSession)
        ensures
            r@ == CameraSessionView::opened(config@, clients),
            r@.wf(),
    {
        CameraSession { config, learned: false, packets: 0, unwatched: clients == 0 }
    }

    /// Learns from a packet. Hands out the configuration when both encodings are known, or
    /// when enough packets have come, and only once.
    pub fn learn(&mut self, media: &Media) -> (r: Option<StreamConfig>)
        requires
            old(self)@.wf(),
        ensures
            final(self)@ == old(self)@.advanced(*media),
            final(self)@.wf(),
            r is Some <==> old(self)@.learns_with(*media),
            r matches Some(config) ==> config@ == final(self)@.config,
    {
        self.config.update_from_media(media);
        if self.learned {
            return None;
        }
        self.packets = self.packets + 1;
        if self.packets > LEARNING_PACKETS || (self.config.vid_type.is_some()
            && self.config.aud_type.is_some()) {
            self.learned = true;
            Some(self.config.clone())
        } else {
            None
        }
    }
}

/// What is to be done with a packet of camera media, in this order.
#[derive(Debug)]
pub struct MediaOrders {
    /// The configuration that clients may use from now on.
    pub announce: Option<StreamConfig>,
    /// The frame that every client is sent.
    pub broadcast: Option<Arc<HubFrame>>,
}

/// Owns the one camera stream: counts its runs, and holds the one that is open.
#[derive(Debug)]
pub struct HubDriver {
    /// The number of the last run.
    pub epoch: u64,
    /// Has a client been seen since the last run, so that the next one may be opened?
    pub wanted: bool,
    /// The run that is open, if one is.
    pub session: Option<CameraSession>,
}

/// The mathematical model of a `HubDriver`.
#[verifier::ext_equal]
pub struct DriverView {
    pub epoch: nat,
    pub wanted: bool,
    pub run: Option<CameraSessionView>,
}

/// What can happen to the camera stream.
pub enum DriverEvent {
    /// The clients are counted while no run is open.
    Look { clients: usize },
    /// A run is opened.
    Start { config: StreamConfigView, clients: usize },
    /// A packet comes.
    Packet { media: Media },
    /// The number of clients changes while a run is open.
    Clients { clients: usize },
    /// The run is closed.
    Finish { end: StreamEnd },
}

impl View for HubDriver {
    type V = DriverView;

    open spec fn view(&self) -> DriverView {
        DriverView {
            epoch: self.epoch as nat,
            wanted: self.wanted,
            run: match self.session {
                Some(session) => Some(session@),
                None => None,
            },
        }
    }
}

impl DriverView {
    /// No run so far, and no client.
    pub open spec fn initial() -> DriverView {
        DriverView { epoch: 0, wanted: false, run: None }
    }

    /// Can this happen now? A run is only opened where none is open and a client has been seen,
    /// and it is only given up for want of clients where there are none.
    pub open spec fn allows(self, event: DriverEvent) -> bool {
        match event {
            DriverEvent::Look { .. } => self.run is None,
            DriverEvent::Start { .. } => self.run is None && self.wanted && self.epoch < u64::MAX,
            DriverEvent::Packet { .. } => self.run is Some,
            DriverEvent::Clients { .. } => self.run is Some,
            DriverEvent::Finish { end } => self.run is Some && (end == StreamEnd::Idle
                ==> self.run->0.unwatched),
        }
    }

    /// The camera stream once something has happened.
    pub open spec fn after(self, event: DriverEvent) -> DriverView {
        match event {
            DriverEvent::Look { clients } => DriverView {
                wanted: self.wanted || clients > 0,
                ..self
            },
            DriverEvent::Start { config, clients } => DriverView {
                epoch: self.epoch + 1,
                wanted: false,
                run: Some(CameraSessionView::opened(config, clients)),
            },
            DriverEvent::Packet { media } => DriverView {
                run: Some(self.run->0.advanced(media)),
                ..self
            },
            DriverEvent::Clients { clients } => DriverView {
                run: Some(self.run->0.watched_by(clients)),
                ..self
            },
            DriverEvent::Finish { .. } => DriverView { run: None, ..self },
        }
    }

    pub open spec fn wf(self) -> bool {
        self.run matches Some(run) ==> run.wf()
    }

    /// What is kept for new clients comes from the run that is open, and from no other.
    pub open spec fn owns(self, kept: Seq<Arc<HubFrame>>) -> bool {
        &&& is_gop(kept)
        &&& self.run is None ==> kept.len() == 0
        &&& forall|i: int| 0 <= i < kept.len() ==> (#[trigger] kept[i]).epoch == self.epoch
    }
}

impl HubDriver {
    /// No run so far, and no client.
    pub fn new() -> (r: HubDriver)
        ensures
            r@ == DriverView::initial(),
            r@.wf(),
            r@.owns(Seq::empty()),
    {
        HubDriver { epoch: 0, wanted: false, session: None }
    }

    /// Takes note of how many clients there are while no run is open. Is a run to be opened?
    pub fn look(&mut self, clients: usize) -> (r: bool)
        requires
            old(self)@.allows(DriverEvent::Look { clients }),
        ensures
            final(self)@ == old(self)@.after(DriverEvent::Look { clients }),
            r == (clients > 0),
            final(self)@.wf(),
            forall|kept: Seq<Arc<HubFrame>>|
                old(self)@.owns(kept) ==> #[trigger] final(self)@.owns(kept),
    {
        let wanted = stream_wanted(clients);
        if wanted {
            self.wanted = true;
        }
        wanted
    }

    /// Starts a run of the camera stream, with this many clients. Gives the seconds until the
    /// run is to be closed, where nobody is watching.
    pub fn start(&mut self, config: StreamConfig, clients: usize, gop: &mut Gop) -> (r: Option<u64>)
        requires
            old(self)@.allows(DriverEvent::Start { config: config@, clients }),
        ensures
            final(self)@ == old(self)@.after(DriverEvent::Start { config: config@, clients }),
            final(gop)@ == Seq::<Arc<HubFrame>>::empty(),
            r == countdown(clients),
            final(self)@.wf(),
            final(self)@.owns(final(gop)@),
    {
        self.epoch = self.epoch + 1;
        self.wanted = false;
        self.session = Some(CameraSession::new(config, clients));
        gop.clear();
        idle_countdown(clients)
    }

    /// Takes in a packet of the run that is open. Frames are numbered with the run, kept for
    /// new clients and sent to every client; stream information is only learned from.
    pub fn media(&mut self, media: Media, gop: &mut Gop) -> (r: MediaOrders)
        requires
            old(self)@.allows(DriverEvent::Packet { media }),
            old(self)@.wf(),
        ensures
            final(self)@ == old(self)@.after(DriverEvent::Packet { media }),
            final(self)@.wf(),
            r.announce is Some <==> old(self)@.run->0.learns_with(media),
            r.announce matches Some(config) ==> config@ == final(self)@.run->0.config,
            match r.broadcast {
                Some(frame) => {
                    &&& media.is_video() || media.is_audio()
                    &&& *frame == (HubFrame { epoch: old(self).epoch, media })
                    &&& final(gop)@ == published(old(gop)@, frame)
                },
                None => !media.is_video() && !media.is_audio() && final(gop)@ == old(gop)@,
            },
            old(self)@.owns(old(gop)@) ==> final(self)@.owns(final(gop)@),
    {
        let mut announce: Option<StreamConfig> = None;
        if let Some(mut session) = self.session.take() {
            announce = session.learn(&media);
            self.session = Some(session);
        }
        let mut broadcast: Option<Arc<HubFrame>> = None;
        if media.is_frame() {
            let frame = Arc::new(HubFrame { epoch: self.epoch, media });
            gop.publish(&frame);
            broadcast = Some(frame);
        }
        MediaOrders { announce, broadcast }
    }

    /// Takes note of how many clients there are. Gives the seconds until the run is to be
    /// closed, counted from now, where nobody is watching any more: clients that are just
    /// reconnecting have a chance to find the stream still running.
    pub fn clients_changed(&mut self, clients: usize) -> (r: Option<u64>)
        requires
            old(self)@.allows(DriverEvent::Clients { clients }),
        ensures
            final(self)@ == old(self)@.after(DriverEvent::Clients { clients }),
            r == countdown(clients),
            old(self)@.wf() ==> final(self)@.wf(),
            forall|kept: Seq<Arc<HubFrame>>|
                old(self)@.owns(kept) ==> #[trigger] final(self)@.owns(kept),
    {
        if let Some(mut session) = self.session.take() {
            session.unwatched = clients == 0;
            self.session = Some(session);
        }
        idle_countdown(clients)
    }

    /// Ends the run that is open. Gives the milliseconds to wait before the next one, where
    /// the stream failed.
    pub fn finish(&mut self, end: StreamEnd, gop: &mut Gop) -> (r: Option<u64>)
        requires
            old(self)@.allows(DriverEvent::Finish { end }),
        ensures
            final(self)@ == old(self)@.after(DriverEvent::Finish { end }),
            final(gop)@ == Seq::<Arc<HubFrame>>::empty(),
            r == match end {
                StreamEnd::Closed => Some(RETRY_PAUSE_MILLIS),
                StreamEnd::Idle => None,
            },
            final(self)@.wf(),
            final(self)@.owns(final(gop)@),
    {
        self.session = None;
        gop.clear();
        match end {
            StreamEnd::Closed => Some(RETRY_PAUSE_MILLIS),
            StreamEnd::Idle => None,
        }
    }
}

/// The countdown to the end of a stream, in seconds, where nobody is watching.
pub fn idle_countdown(clients: usize) -> (r: Option<u64>)
    ensures
        r == countdown(clients),
{
    if clients == 0 {
        Some(IDLE_GRACE_SECS)
    } else {
        None
    }
}

/// What can happen during a run.
pub enum SessionEvent {
    Packet(Media),
    Clients(usize),
}

/// A run after some events, one after the other.
pub open spec fn session_after(
    config: StreamConfigView,
    clients: usize,
    events: Seq<SessionEvent>,
) -> CameraSessionView
    decreases events.len(),
{
    if events.len() == 0 {
        CameraSessionView::opened(config, clients)
    } else {
        let before = session_after(config, clients, events.drop_last());
        match events.last() {
            SessionEvent::Packet(media) => before.advanced(media),
            SessionEvent::Clients(count) => before.watched_by(count),
        }
    }
}

/// How many packets come.
pub open spec fn packets_in(events: Seq<SessionEvent>) -> nat
    decreases events.len(),
{
    if events.len() == 0 {
        0
    } else {
        packets_in(events.drop_last()) + if events.last() is Packet {
            1nat
        } else {
            0nat
        }
    }
}

/// The configuration is handed out as soon as both encodings are known, and with the eleventh
/// packet at the latest, whatever clients come and go meanwhile.
pub proof fn law_config_comes_in_time(
    config: StreamConfigView,
    clients: usize,
    events: Seq<SessionEvent>,
)
    requires
        config.vid_type is None || config.aud_type is None,
    ensures
        session_after(config, clients, events).wf(),
        session_after(config, clients, events).learned <==> (packets_in(events) > 10 || (
        session_after(config, clients, events).config.vid_type is Some && session_after(
            config,
            clients,
            events,
        ).config.aud_type is Some)),
        !session_after(config, clients, events).learned ==> session_after(
            config,
            clients,
            events,
        ).packets == packets_in(events),
    decreases events.len(),
{
    if events.len() > 0 {
        law_config_comes_in_time(config, clients, events.drop_last());
    }
}

/// Is the configuration handed out with the event at this place?
pub open spec fn hands_out_at(
    config: StreamConfigView,
    clients: usize,
    events: Seq<SessionEvent>,
    i: int,
) -> bool {
    events[i] matches SessionEvent::Packet(media) && session_after(
        config,
        clients,
        events.take(i),
    ).learns_with(media)
}

/// The configuration is handed out once in a run: no packet behind the one that it came with
/// brings it again, whatever clients come and go meanwhile.
pub proof fn law_config_comes_once(
    config: StreamConfigView,
    clients: usize,
    events: Seq<SessionEvent>,
    first: int,
    second: int,
)
    requires
        0 <= first < second < events.len(),
        hands_out_at(config, clients, events, first),
    ensures
        !hands_out_at(config, clients, events, second),
{
    assert(events.take(first + 1).drop_last() =~= events.take(first));
    lemma_learned_stays(config, clients, events, first + 1, second);
}

proof fn lemma_learned_stays(
    config: StreamConfigView,
    clients: usize,
    events: Seq<SessionEvent>,
    early: int,
    late: int,
)
    requires
        0 <= early <= late <= events.len(),
        session_after(config, clients, events.take(early)).learned,
    ensures
        session_after(config, clients, events.take(late)).learned,
    decreases late,
{
    if early < late {
        lemma_learned_stays(config, clients, events, early, late - 1);
        assert(events.take(late).drop_last() =~= events.take(late - 1));
    }
}

/// The camera stream after some events, one after the other, from its beginning.
pub open spec fn driver_after(events: Seq<DriverEvent>) -> DriverView
    decreases events.len(),
{
    if events.len() == 0 {
        DriverView::initial()
    } else {
        driver_after(events.drop_last()).after(events.last())
    }
}

/// Events of which each one could happen when it did.
pub open spec fn is_history(events: Seq<DriverEvent>) -> bool
    decreases events.len(),
{
    events.len() == 0 || (is_history(events.drop_last()) && driver_after(events.drop_last()).allows(
        events.last(),
    ))
}

/// How many runs are opened.
pub open spec fn starts(events: Seq<DriverEvent>) -> nat
    decreases events.len(),
{
    if events.len() == 0 {
        0
    } else {
        starts(events.drop_last()) + if events.last() is Start {
            1nat
        } else {
            0nat
        }
    }
}

/// How many runs are closed.
pub open spec fn finishes(events: Seq<DriverEvent>) -> nat
    decreases events.len(),
{
    if events.len() == 0 {
        0
    } else {
        finishes(events.drop_last()) + if events.last() is Finish {
            1nat
        } else {
            0nat
        }
    }
}

/// At every moment at most one run is open: each one but the last has been closed, and the last
/// one is open or closed.
pub proof fn law_one_run_at_a_time(events: Seq<DriverEvent>)
    requires
        is_history(events),
    ensures
        starts(events) == finishes(events) + if driver_after(events).run is Some {
            1nat
        } else {
            0nat
        },
    decreases events.len(),
{
    if events.len() > 0 {
        law_one_run_at_a_time(events.drop_last());
    }
}

/// The runs are numbered from 1 on, and a packet that comes is one of the run that was opened
/// last: it is numbered with as many runs as have been opened.
pub proof fn law_runs_are_numbered(events: Seq<DriverEvent>)
    ensures
        driver_after(events).epoch == starts(events),
        is_history(events) && events.len() > 0 && events.last() is Packet ==> driver_after(
            events.drop_last(),
        ).run is Some && driver_after(events.drop_last()).epoch == starts(events) && starts(events)
            >= 1,
    decreases events.len(),
{
    if events.len() > 0 {
        law_runs_are_numbered(events.drop_last());
        if is_history(events) && events.last() is Packet {
            law_one_run_at_a_time(events.drop_last());
        }
    }
}

/// The number that the frame at this place carries.
pub open spec fn epoch_at(events: Seq<DriverEvent>, i: int) -> nat {
    driver_after(events.take(i)).epoch
}

/// The numbers of frames never fall. They are the same within a run, and rise with each run
/// that is opened in between.
pub proof fn law_epochs_rise_with_the_runs(events: Seq<DriverEvent>, early: int, late: int)
    requires
        is_history(events),
        0 <= early <= late < events.len(),
        events[early] is Packet,
        events[late] is Packet,
    ensures
        epoch_at(events, early) <= epoch_at(events, late),
        epoch_at(events, early) < epoch_at(events, late) <==> exists|k: int|
            early < k < late && #[trigger] events[k] is Start,
{
    lemma_epochs_rise(events, early, late);
}

proof fn lemma_epochs_rise(events: Seq<DriverEvent>, early: int, late: int)
    requires
        0 <= early <= late < events.len(),
        !(events[early] is Start),
    ensures
        epoch_at(events, early) <= epoch_at(events, late),
        epoch_at(events, early) < epoch_at(events, late) <==> exists|k: int|
            early < k < late && #[trigger] events[k] is Start,
    decreases late,
{
    if early < late {
        lemma_epochs_rise(events, early, late - 1);
        assert(events.take(late).drop_last() =~= events.take(late - 1));
        assert(events.take(late).last() == events[late - 1]);
    }
}

/// Each run is opened for a client: a count above 0 has been seen since the last run was closed,
/// and nothing but looking for clients has happened since.
pub proof fn law_each_run_follows_a_client(events: Seq<DriverEvent>, at: int) -> (seen: int)
    requires
        is_history(events),
        0 <= at < events.len(),
        events[at] is Start,
    ensures
        0 <= seen < at,
        events[seen] matches DriverEvent::Look { clients } && clients > 0,
        forall|k: int| seen < k < at ==> #[trigger] events[k] is Look,
{
    lemma_history_take(events, at + 1);
    assert(events.take(at + 1).drop_last() =~= events.take(at));
    assert(events.take(at + 1).last() == events[at]);
    let seen = lemma_wanted_means_seen(events.take(at));
    assert forall|k: int| seen < k < at implies #[trigger] events[k] is Look by {
        assert(events.take(at)[k] == events[k]);
    }
    seen
}

/// With no client ever, the camera is never started.
pub proof fn law_no_client_no_run(events: Seq<DriverEvent>)
    requires
        is_history(events),
        forall|i: int|
            0 <= i < events.len() ==> ((#[trigger] events[i]) matches DriverEvent::Look { clients }
                ==> clients == 0),
    ensures
        starts(events) == 0,
    decreases events.len(),
{
    if events.len() > 0 {
        let before = events.drop_last();
        assert forall|i: int| 0 <= i < before.len() implies ((#[trigger] before[i]) matches
        DriverEvent::Look { clients } ==> clients == 0) by {
            assert(before[i] == events[i]);
        }
        law_no_client_no_run(before);
        if events.last() is Start {
            let seen = law_each_run_follows_a_client(events, events.len() - 1);
            assert(events[seen] is Look);
        }
    }
}

proof fn lemma_history_take(events: Seq<DriverEvent>, n: int)
    requires
        is_history(events),
        0 <= n <= events.len(),
    ensures
        is_history(events.take(n)),
    decreases events.len(),
{
    if n == events.len() {
        assert(events.take(n) =~= events);
    } else {
        lemma_history_take(events.drop_last(), n);
        assert(events.drop_last().take(n) =~= events.take(n));
    }
}

/// Where a run may be opened, a client has been seen, and only looking has happened since.
proof fn lemma_wanted_means_seen(events: Seq<DriverEvent>) -> (seen: int)
    requires
        is_history(events),
        driver_after(events).wanted,
        driver_after(events).run is None,
    ensures
        0 <= seen < events.len(),
        events[seen] matches DriverEvent::Look { clients } && clients > 0,
        forall|k: int| seen < k < events.len() ==> #[trigger] events[k] is Look,
    decreases events.len(),
{
    let before = events.drop_last();
    lemma_no_run_while_wanted(before);
    assert(events.last() == events[events.len() - 1]);
    if driver_after(before).wanted {
        assert(events.last() is Look);
        let seen = lemma_wanted_means_seen(before);
        assert forall|k: int| seen < k < events.len() implies #[trigger] events[k] is Look by {
            if k < before.len() {
                assert(before[k] == events[k]);
            }
        }
        assert(before[seen] == events[seen]);
        seen
    } else {
        events.len() - 1
    }
}

proof fn lemma_no_run_while_wanted(events: Seq<DriverEvent>)
    requires
        is_history(events),
    ensures
        driver_after(events).wanted ==> driver_after(events).run is None,
    decreases events.len(),
{
    if events.len() > 0 {
        lemma_no_run_while_wanted(events.drop_last());
    }
}

/// The configuration is handed out with the very packet that it becomes known with, and a run
/// whose configuration was handed out stays one.
pub proof fn law_config_is_handed_out_once_it_is_known(session: CameraSessionView, media: Media)
    ensures
        session.learns_with(media) <==> !session.learned && session.advanced(media).learned,
        session.learned ==> session.advanced(media).learned,
{
}

/// The packets that come, in their order.
pub open spec fn packets_of(events: Seq<SessionEvent>) -> Seq<Media>
    decreases events.len(),
{
    if events.len() == 0 {
        Seq::empty()
    } else {
        match events.last() {
            SessionEvent::Packet(media) => packets_of(events.drop_last()).push(media),
            SessionEvent::Clients(_) => packets_of(events.drop_last()),
        }
    }
}

/// What is known in a run is what its packets told, one after the other and each of them, from
/// what was known when the run was opened, whatever clients come and go meanwhile.
pub proof fn law_every_packet_is_learned_from(
    config: StreamConfigView,
    clients: usize,
    events: Seq<SessionEvent>,
)
    ensures
        session_after(config, clients, events).config == taught_by(config, packets_of(events)),
    decreases events.len(),
{
    if events.len() > 0 {
        law_every_packet_is_learned_from(config, clients, events.drop_last());
        match events.last() {
            SessionEvent::Packet(media) => {
                let before = packets_of(events.drop_last());
                assert(before.push(media).drop_last() =~= before);
            },
            SessionEvent::Clients(_) => {},
        }
    }
}

/// The number of clients that was told last.
pub open spec fn clients_told(clients: usize, events: Seq<SessionEvent>) -> usize
    decreases events.len(),
{
    if events.len() == 0 {
        clients
    } else {
        match events.last() {
            SessionEvent::Packet(_) => clients_told(clients, events.drop_last()),
            SessionEvent::Clients(count) => count,
        }
    }
}

/// A run is unwatched exactly while the last count of clients is 0, whatever packets come. Then,
/// and only then, the countdown of 30 seconds runs.
pub proof fn law_a_run_is_unwatched_while_there_are_no_clients(
    config: StreamConfigView,
    clients: usize,
    events: Seq<SessionEvent>,
)
    ensures
        session_after(config, clients, events).unwatched <==> clients_told(clients, events) == 0,
        session_after(config, clients, events).unwatched ==> countdown(
            clients_told(clients, events),
        ) == Some(30u64),
        !session_after(config, clients, events).unwatched ==> countdown(
            clients_told(clients, events),
        ) is None,
    decreases events.len(),
{
    if events.len() > 0 {
        law_a_run_is_unwatched_while_there_are_no_clients(config, clients, events.drop_last());
    }
}

/// What an event of the camera stream is to the run that is open.
pub open spec fn in_the_run(event: DriverEvent) -> SessionEvent {
    match event {
        DriverEvent::Packet { media } => SessionEvent::Packet(media),
        DriverEvent::Clients { clients } => SessionEvent::Clients(clients),
        _ => arbitrary(),
    }
}

/// The open run is made by the event that opened it and by the packets and counts since: with its
/// configuration and its clients it is opened, and each packet and each count goes into it.
pub proof fn law_the_open_run_is_made_by_its_events(events: Seq<DriverEvent>, opened: int)
    requires
        0 <= opened < events.len(),
        events[opened] is Start,
        forall|i: int|
            opened < i < events.len() ==> (#[trigger] events[i]) is Packet || events[i] is Clients,
    ensures
        events[opened] matches DriverEvent::Start { config, clients } && driver_after(events).run
            == Some(
            session_after(
                config,
                clients,
                events.skip(opened + 1).map_values(|event: DriverEvent| in_the_run(event)),
            ),
        ),
    decreases events.len(),
{
    let later = events.skip(opened + 1).map_values(|event: DriverEvent| in_the_run(event));
    if opened == events.len() - 1 {
        assert(later =~= Seq::empty());
        assert(events.last() == events[opened]);
    } else {
        let before = events.drop_last();
        assert(before[opened] == events[opened]);
        assert forall|i: int| opened < i < before.len() implies (#[trigger] before[i]) is Packet
            || before[i] is Clients by {
            assert(before[i] == events[i]);
        }
        law_the_open_run_is_made_by_its_events(before, opened);
        assert(later.drop_last() =~= before.skip(opened + 1).map_values(
            |event: DriverEvent| in_the_run(event),
        ));
        assert(events[events.len() - 1] == events.last());
        assert(later.last() == in_the_run(events.last()));
    }
}

/// The count that an event of an open run tells, if it tells one.
pub open spec fn count_in(event: DriverEvent) -> Option<usize> {
    match event {
        DriverEvent::Start { clients, .. } => Some(clients),
        DriverEvent::Clients { clients } => Some(clients),
        _ => None,
    }
}

/// A run is only given up for want of clients where the last count of them was 0.
pub proof fn law_no_run_is_given_up_while_it_is_watched(events: Seq<DriverEvent>, at: int) -> (
    told: int)
    requires
        is_history(events),
        0 <= at < events.len(),
        events[at] == (DriverEvent::Finish { end: StreamEnd::Idle }),
    ensures
        0 <= told < at,
        count_in(events[told]) == Some(0usize),
        forall|k: int| told < k < at ==> count_in(#[trigger] events[k]) is None,
{
    lemma_history_take(events, at + 1);
    assert(events.take(at + 1).drop_last() =~= events.take(at));
    assert(events.take(at + 1).last() == events[at]);
    let told = lemma_unwatched_was_told(events.take(at));
    assert forall|k: int| told < k < at implies count_in(#[trigger] events[k]) is None by {
        assert(events.take(at)[k] == events[k]);
    }
    told
}

proof fn lemma_unwatched_was_told(events: Seq<DriverEvent>) -> (told: int)
    requires
        is_history(events),
        driver_after(events).run is Some,
        driver_after(events).run->0.unwatched,
    ensures
        0 <= told < events.len(),
        count_in(events[told]) == Some(0usize),
        forall|k: int| told < k < events.len() ==> count_in(#[trigger] events[k]) is None,
    decreases events.len(),
{
    let before = events.drop_last();
    assert(events.last() == events[events.len() - 1]);
    if count_in(events.last()) is Some {
        events.len() - 1
    } else {
        assert(events.last() is Packet);
        let told = lemma_unwatched_was_told(before);
        assert(before[told] == events[told]);
        assert forall|k: int| told < k < events.len() implies count_in(
            #[trigger] events[k],
        ) is None by {
            if k < before.len() {
                assert(before[k] == events[k]);
            }
        }
        told
    }
}

/// The camera stream is never stuck: without an open run the clients can be counted, and a count
/// above 0 lets a run be opened, also where a later count is 0. An open run takes every packet and every count, ends whenever the
/// camera stops sending, and can be given up once a count is 0.
pub proof fn law_the_camera_stream_is_never_stuck(
    driver: DriverView,
    config: StreamConfigView,
    clients: usize,
    media: Media,
)
    ensures
        driver.run is None ==> {
            &&& driver.allows(DriverEvent::Look { clients })
            &&& driver.after(DriverEvent::Look { clients }).run is None
            &&& driver.wanted ==> driver.after(DriverEvent::Look { clients }).wanted
            &&& clients > 0 && driver.epoch < 0xFFFF_FFFF_FFFF_FFFF ==> driver.after(
                DriverEvent::Look { clients },
            ).allows(DriverEvent::Start { config, clients })
        },
        driver.run is Some ==> {
            &&& driver.allows(DriverEvent::Packet { media })
            &&& driver.after(DriverEvent::Packet { media }).run is Some
            &&& driver.allows(DriverEvent::Clients { clients })
            &&& driver.after(DriverEvent::Clients { clients }).run is Some
            &&& driver.allows(DriverEvent::Finish { end: StreamEnd::Closed })
            &&& clients == 0 ==> driver.after(DriverEvent::Clients { clients }).allows(
                DriverEvent::Finish { end: StreamEnd::Idle },
            )
        },
        driver.after(DriverEvent::Start { config, clients }).run is Some,
        driver.after(DriverEvent::Finish { end: StreamEnd::Closed }).run is None,
        driver.after(DriverEvent::Finish { end: StreamEnd::Idle }).run is None,
{
}

/// What is kept for new clients belongs to the open run: without one nothing is kept, and what is
/// kept begins with an I-frame, goes on without another one, and carries the number of the run.
pub proof fn law_kept_frames_belong_to_the_open_run(
    driver: DriverView,
    kept: Seq<Arc<HubFrame>>,
    i: int,
)
    requires
        driver.owns(kept),
        0 <= i < kept.len(),
    ensures
        driver.run is Some,
        kept[i].epoch == driver.epoch,
        kept[i].media is Iframe <==> i == 0,
        kept.len() <= 1000,
{
}

/// The models of the camera stream and of its run show their fields as they are.
pub proof fn law_the_models_of_the_camera_stream_are_faithful(
    driver: HubDriver,
    session: CameraSession,
)
    ensures
        driver@.epoch == driver.epoch,
        driver@.wanted == driver.wanted,
        driver.session is None ==> driver@.run is None,
        driver.session matches Some(open) ==> driver@.run == Some(open@),
        session@.config == session.config@,
        session@.learned == session.learned,
        session@.packets == session.packets,
        session@.unwatched == session.unwatched,
{
}

/// The times of the camera stream: 30 seconds of grace without clients, 20 seconds of patience with
/// the camera, half a second before a stream that failed is tried again, and 10 packets to learn
/// from.
pub proof fn law_the_times_of_the_camera_stream()
    ensures
        IDLE_GRACE_SECS == 30,
        CONFIG_TIMEOUT_SECS == 20,
        RETRY_PAUSE_MILLIS * 2 == 1000,
        LEARNING_PACKETS == 10,
{
}

} // verus!
