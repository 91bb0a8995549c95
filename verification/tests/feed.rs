use std::sync::Arc;

use rtsp_factory::feed::{
    check_live, pipeline_running, push_outcome, Arrival, FeedError, Feeder, Flow, NextMove,
    PipelineState, Push, SourceStatus, Sources, Track, MAX_QUEUED_BYTES,
};
use rtsp_factory::{HubFrame, Media, VideoType};

const BOTH: Sources = Sources { video: true, audio: true };

fn key(epoch: u64) -> HubFrame {
    let media = Media::Iframe {
        video_type: VideoType::H264,
        data: vec![],
    };
    HubFrame { epoch, media }
}

fn delta(epoch: u64) -> HubFrame {
    let media = Media::Pframe {
        video_type: VideoType::H264,
        data: vec![],
    };
    HubFrame { epoch, media }
}

fn audio(epoch: u64, duration: Option<u32>) -> HubFrame {
    HubFrame {
        epoch,
        media: Media::Aac { data: vec![], duration },
    }
}

fn video_at(ts: u32) -> Option<Push> {
    Some(Push { track: Track::Video, ts })
}

fn audio_at(ts: u32) -> Option<Push> {
    Some(Push { track: Track::Audio, ts })
}

fn status(running: bool) -> Option<SourceStatus> {
    let state = if running { PipelineState::Playing } else { PipelineState::Ready };
    Some(SourceStatus { has_bus: true, pads_linked: vec![true], state })
}

fn feeder(fps: u32) -> Feeder {
    Feeder::new(BOTH, fps, vec![])
}

#[test]
fn only_paused_and_playing_pipelines_take_frames() {
    assert!(pipeline_running(Some(PipelineState::Paused)));
    assert!(pipeline_running(Some(PipelineState::Playing)));
    assert!(!pipeline_running(Some(PipelineState::Ready)));
    assert!(!pipeline_running(Some(PipelineState::Null)));
    assert!(!pipeline_running(Some(PipelineState::VoidPending)));
    assert!(!pipeline_running(None));
}

#[test]
fn a_source_needs_a_bus_and_linked_pads() {
    assert!(check_live(true, &vec![]).is_ok());
    assert!(check_live(true, &vec![true, true]).is_ok());
    let closed = check_live(false, &vec![true]).unwrap_err();
    assert_eq!(closed.message(), "App source is closed");
    assert!(matches!(check_live(false, &vec![false]), Err(FeedError::Closed)));
    let unlinked = check_live(true, &vec![true, false]).unwrap_err();
    assert_eq!(unlinked.message(), "App source is not linked");
}

#[test]
fn a_flushing_source_is_no_error() {
    assert!(matches!(push_outcome(Flow::Taken), Ok(true)));
    assert!(matches!(push_outcome(Flow::Flushing), Ok(false)));
    let error = push_outcome(Flow::Failed("Eos".to_string())).unwrap_err();
    assert_eq!(error.message(), "Error in streaming: Eos");
}

#[test]
fn video_advances_by_the_frame_rate() {
    assert_eq!(feeder(25).vid_step, 40000);
    assert_eq!(feeder(30).vid_step, 33333);
    assert_eq!(feeder(1).vid_step, 1000000);
    assert_eq!(feeder(0).vid_step, 1000000);
    assert_eq!(feeder(2000000).vid_step, 0);
}

#[test]
fn nothing_is_sent_before_a_keyframe() {
    let mut feeder = feeder(25);
    assert_eq!(feeder.take_frame(&delta(1), 0), None);
    assert_eq!(feeder.take_frame(&audio(1, Some(10)), 0), None);
    assert_eq!(feeder.take_frame(&key(1), 0), video_at(0));
    assert_eq!(feeder.take_frame(&delta(1), 0), video_at(40000));
}

#[test]
fn the_clocks_run_with_the_frames() {
    let mut feeder = feeder(25);
    assert_eq!(feeder.take_frame(&key(1), 0), video_at(0));
    assert_eq!(feeder.take_frame(&audio(1, Some(64000)), 0), audio_at(0));
    assert_eq!(feeder.take_frame(&delta(1), 0), video_at(40000));
    assert_eq!(feeder.take_frame(&audio(1, None), 0), audio_at(64000));
    assert_eq!(feeder.take_frame(&audio(1, Some(1)), 0), audio_at(64000));
    assert_eq!(feeder.take_frame(&key(1), 0), video_at(80000));
    assert_eq!(feeder.progress.vid_ts, 120000);
    assert_eq!(feeder.progress.aud_ts, 64001);
}

#[test]
fn a_restarted_camera_needs_a_keyframe() {
    let mut feeder = feeder(25);
    feeder.take_frame(&key(1), 0);
    feeder.take_frame(&delta(1), 0);
    assert_eq!(feeder.take_frame(&delta(2), 0), None);
    assert_eq!(feeder.take_frame(&delta(2), 0), None);
    assert_eq!(feeder.take_frame(&key(2), 0), video_at(0));
    assert_eq!(feeder.take_frame(&audio(2, Some(5)), 0), audio_at(0));
}

#[test]
fn a_full_queue_drops_frames_until_the_next_keyframe() {
    let mut feeder = feeder(25);
    feeder.take_frame(&key(1), 0);
    assert_eq!(feeder.take_frame(&delta(1), MAX_QUEUED_BYTES), video_at(40000));
    assert_eq!(feeder.take_frame(&delta(1), MAX_QUEUED_BYTES + 1), None);
    assert_eq!(feeder.take_frame(&delta(1), 0), None);
    assert_eq!(feeder.take_frame(&audio(1, Some(5)), 0), None);
    assert_eq!(feeder.take_frame(&key(1), 0), video_at(0));
    assert_eq!(MAX_QUEUED_BYTES, 6 * 1024 * 1024);
}

#[test]
fn a_keyframe_is_sent_even_to_a_full_queue() {
    let mut feeder = feeder(25);
    feeder.take_frame(&key(1), 0);
    feeder.take_frame(&delta(1), 0);
    assert_eq!(feeder.take_frame(&key(1), MAX_QUEUED_BYTES + 1), video_at(0));
}

#[test]
fn a_frame_that_is_not_taken_starts_over() {
    let mut feeder = feeder(25);
    feeder.take_frame(&key(1), 0);
    assert!(matches!(feeder.pushed(Ok(true)), NextMove::Again));
    assert_eq!(feeder.take_frame(&delta(1), 0), video_at(40000));
    assert!(matches!(feeder.pushed(Ok(false)), NextMove::Again));
    assert_eq!(feeder.take_frame(&delta(1), 0), None);
    assert_eq!(feeder.take_frame(&key(1), 0), video_at(0));
}

#[test]
fn lost_frames_start_over() {
    let mut feeder = feeder(25);
    feeder.take_frame(&key(1), 0);
    assert!(matches!(feeder.received(Arrival::Lagged), NextMove::Again));
    assert_eq!(feeder.take_frame(&delta(1), 0), None);
    assert_eq!(feeder.take_frame(&key(1), 0), video_at(0));
}

#[test]
fn a_track_without_a_source_is_not_sent() {
    let mut feeder = Feeder::new(Sources { video: false, audio: true }, 25, vec![]);
    assert_eq!(feeder.take_frame(&key(1), 0), None);
    assert_eq!(feeder.take_frame(&audio(1, Some(10)), 0), audio_at(0));
    assert_eq!(feeder.progress.vid_ts, 40000);
    let mut feeder = Feeder::new(Sources { video: true, audio: false }, 25, vec![]);
    assert_eq!(feeder.take_frame(&key(1), 0), video_at(0));
    assert_eq!(feeder.take_frame(&audio(1, Some(10)), 0), None);
    assert_eq!(feeder.progress.aud_ts, 10);
}

#[test]
fn stream_information_is_never_sent() {
    let mut feeder = feeder(25);
    feeder.take_frame(&key(1), 0);
    let info = HubFrame { epoch: 1, media: Media::InfoV1 { fps: 25 } };
    assert_eq!(feeder.take_frame(&info, 0), None);
    assert_eq!(feeder.take_frame(&delta(1), 0), video_at(40000));
}

#[test]
fn the_backlog_is_taken_first() {
    let gop = vec![Arc::new(key(1)), Arc::new(delta(1))];
    let mut feeder = Feeder::new(BOTH, 25, gop);
    let mut sent = vec![];
    for _ in 0..2 {
        match feeder.next_move(status(true)) {
            NextMove::Take(frame) => sent.push(feeder.take_frame(&frame, 0)),
            other => panic!("{other:?}"),
        }
    }
    assert_eq!(sent, vec![video_at(0), video_at(40000)]);
    assert!(matches!(feeder.next_move(status(true)), NextMove::Receive));
}

#[test]
fn a_pipeline_that_has_not_started_yet_keeps_its_frames() {
    let mut feeder = Feeder::new(BOTH, 25, vec![Arc::new(key(1))]);
    for _ in 0..3 {
        match feeder.next_move(status(false)) {
            NextMove::Wait { millis, drop_arrived } => {
                assert_eq!(millis, 10);
                assert!(!drop_arrived);
            }
            other => panic!("{other:?}"),
        }
    }
    assert!(matches!(feeder.next_move(status(true)), NextMove::Take(_)));
}

#[test]
fn frames_that_arrive_while_the_pipeline_is_stopped_are_dropped() {
    let mut feeder = feeder(25);
    assert!(matches!(feeder.next_move(status(true)), NextMove::Receive));
    assert_eq!(feeder.take_frame(&key(1), 0), video_at(0));
    assert!(matches!(
        feeder.next_move(status(false)),
        NextMove::Wait { millis: 10, drop_arrived: true }
    ));
    assert!(matches!(feeder.next_move(status(true)), NextMove::Receive));
    assert_eq!(feeder.take_frame(&delta(1), 0), None);
    assert_eq!(feeder.take_frame(&key(1), 0), video_at(0));
}

#[test]
fn the_clocks_have_to_fit() {
    let mut feeder = feeder(1);
    feeder.take_frame(&key(1), 0);
    feeder.progress.vid_ts = u32::MAX - 1000000;
    feeder.progress.aud_ts = u32::MAX - 5;
    assert!(feeder.clocks_fit(&delta(1), 0));
    assert!(feeder.clocks_fit(&audio(1, Some(5)), 0));
    assert!(!feeder.clocks_fit(&audio(1, Some(6)), 0));
    feeder.take_frame(&delta(1), 0);
    assert!(!feeder.clocks_fit(&delta(1), 0));
    assert!(!feeder.clocks_fit(&key(1), 0));
    // A frame that starts over, or is not sent, moves no clock too far
    assert!(feeder.clocks_fit(&key(2), 0));
    assert!(feeder.clocks_fit(&delta(2), 0));
}

fn number(frame: &HubFrame) -> u8 {
    match &frame.media {
        Media::Iframe { data, .. }
        | Media::Pframe { data, .. }
        | Media::Aac { data, .. }
        | Media::Adpcm { data, .. } => data[0],
        _ => 0,
    }
}

fn numbered(mut frame: HubFrame, number: u8) -> Arc<HubFrame> {
    match &mut frame.media {
        Media::Iframe { data, .. }
        | Media::Pframe { data, .. }
        | Media::Aac { data, .. }
        | Media::Adpcm { data, .. } => data.push(number),
        _ => {}
    }
    Arc::new(frame)
}

#[test]
fn frames_are_sent_in_the_order_in_which_they_came() {
    let backlog = vec![
        numbered(key(1), 1),
        numbered(audio(1, Some(5)), 2),
        numbered(delta(1), 3),
        numbered(key(1), 4),
    ];
    let mut feeder = Feeder::new(BOTH, 25, backlog);
    let mut sent = vec![];
    // The pipeline stops behind the second frame, while two frames arrive and are dropped
    for running in [true, true, false, true, true] {
        match feeder.next_move(status(running)) {
            NextMove::Take(frame) => {
                if let Some(push) = feeder.take_frame(&frame, 0) {
                    sent.push((number(&frame), push.track));
                    assert!(matches!(feeder.pushed(Ok(true)), NextMove::Again));
                }
            }
            NextMove::Wait { drop_arrived, .. } => assert!(drop_arrived),
            other => panic!("{other:?}"),
        }
    }
    for frame in [numbered(delta(1), 7), numbered(audio(1, Some(5)), 8)] {
        assert!(matches!(feeder.next_move(status(true)), NextMove::Receive));
        assert!(matches!(feeder.received(Arrival::Frame(frame.clone())), NextMove::Take(_)));
        if let Some(push) = feeder.take_frame(&frame, 0) {
            sent.push((number(&frame), push.track));
            assert!(matches!(feeder.pushed(Ok(true)), NextMove::Again));
        }
    }
    assert_eq!(
        sent,
        vec![
            (1, Track::Video),
            (2, Track::Audio),
            (4, Track::Video),
            (7, Track::Video),
            (8, Track::Audio),
        ]
    );
}

#[test]
fn a_frame_without_a_source_does_not_interrupt_the_others() {
    let video_only = Sources { video: true, audio: false };
    let mut feeder = Feeder::new(video_only, 25, vec![]);
    assert_eq!(feeder.take_frame(&key(1), 0), video_at(0));
    assert_eq!(feeder.take_frame(&audio(1, Some(5)), 0), None);
    assert!(feeder.progress.started);
    assert_eq!(feeder.take_frame(&delta(1), 0), video_at(40000));
}

#[test]
fn the_video_source_is_watched_and_else_the_audio_source() {
    assert_eq!(BOTH.watched(), Some(Track::Video));
    assert_eq!(Sources { video: true, audio: false }.watched(), Some(Track::Video));
    assert_eq!(Sources { video: false, audio: true }.watched(), Some(Track::Audio));
    assert_eq!(Sources { video: false, audio: false }.watched(), None);
}

#[test]
fn feeding_ends_in_success_with_the_camera_stream() {
    let mut feeder = feeder(25);
    assert!(matches!(feeder.next_move(status(true)), NextMove::Receive));
    assert!(matches!(feeder.received(Arrival::Closed), NextMove::End(Ok(()))));
}

#[test]
fn feeding_ends_with_the_error_of_a_dead_source() {
    let mut feeder = Feeder::new(BOTH, 25, vec![Arc::new(key(1))]);
    let closed = SourceStatus {
        has_bus: false,
        pads_linked: vec![true],
        state: PipelineState::Playing,
    };
    assert!(matches!(
        feeder.next_move(Some(closed)),
        NextMove::End(Err(FeedError::Closed))
    ));
    let unlinked = SourceStatus {
        has_bus: true,
        pads_linked: vec![true, false],
        state: PipelineState::Null,
    };
    assert!(matches!(
        feeder.next_move(Some(unlinked)),
        NextMove::End(Err(FeedError::NotLinked))
    ));
    assert!(!feeder.has_run);
    assert_eq!(feeder.backlog.len(), 1);
}

#[test]
fn feeding_ends_with_the_error_of_a_failed_push() {
    let mut feeder = feeder(25);
    feeder.take_frame(&key(1), 0);
    match feeder.pushed(push_outcome(Flow::Failed("Eos".to_string()))) {
        NextMove::End(Err(error)) => assert_eq!(error.message(), "Error in streaming: Eos"),
        other => panic!("{other:?}"),
    }
}

#[test]
fn a_pipeline_without_a_source_is_never_fed() {
    let none = Sources { video: false, audio: false };
    let mut feeder = Feeder::new(none, 25, vec![Arc::new(key(1))]);
    for _ in 0..3 {
        assert!(matches!(
            feeder.next_move(None),
            NextMove::Wait { millis: 10, drop_arrived: false }
        ));
    }
}

#[test]
fn a_client_that_only_listens_starts_at_time_0_again() {
    let mut feeder = Feeder::new(Sources { video: false, audio: true }, 25, vec![]);
    feeder.take_frame(&key(1), 0);
    assert_eq!(feeder.take_frame(&audio(1, Some(10)), 0), audio_at(0));
    assert_eq!(feeder.take_frame(&audio(1, Some(10)), 0), audio_at(10));
    assert!(matches!(feeder.next_move(status(false)), NextMove::Wait { .. }));
    assert_eq!(feeder.take_frame(&audio(1, Some(10)), 0), None);
    assert_eq!(feeder.take_frame(&key(1), 0), None);
    assert_eq!(feeder.take_frame(&delta(1), 0), None);
    assert_eq!(feeder.take_frame(&audio(1, Some(10)), 0), audio_at(0));
}
