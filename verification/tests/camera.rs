use rtsp_factory::camera::{idle_countdown, CameraSession, HubDriver, StreamEnd};
use rtsp_factory::{AudioType, Gop, Media, StreamConfig, VideoType};

fn config() -> StreamConfig {
    StreamConfig::new(&vec![], "mainStream")
}

fn key() -> Media {
    Media::Iframe {
        video_type: VideoType::H264,
        data: vec![1],
    }
}

fn delta() -> Media {
    Media::Pframe {
        video_type: VideoType::H264,
        data: vec![2],
    }
}

fn aac() -> Media {
    Media::Aac {
        data: vec![3],
        duration: Some(64000),
    }
}

#[test]
fn the_configuration_comes_when_both_encodings_are_known() {
    let mut session = CameraSession::new(config(), 1);
    assert!(session.learn(&Media::InfoV1 { fps: 25 }).is_none());
    assert!(session.learn(&key()).is_none());
    let learned = session.learn(&aac()).unwrap();
    assert_eq!(learned.vid_type, Some(VideoType::H264));
    assert_eq!(learned.aud_type, Some(AudioType::Aac));
    assert_eq!(learned.fps, 25);
}

#[test]
fn the_configuration_comes_with_the_eleventh_packet_at_the_latest() {
    let mut session = CameraSession::new(config(), 1);
    for _ in 0..10 {
        assert!(session.learn(&key()).is_none());
    }
    let learned = session.learn(&key()).unwrap();
    assert_eq!(learned.vid_type, Some(VideoType::H264));
    assert!(learned.aud_type.is_none());
}

#[test]
fn the_configuration_comes_only_once() {
    let mut session = CameraSession::new(config(), 1);
    session.learn(&key());
    assert!(session.learn(&aac()).is_some());
    for _ in 0..20 {
        assert!(session.learn(&aac()).is_none());
        assert!(session.learn(&key()).is_none());
    }
    // What comes later is learned all the same
    session.learn(&Media::InfoV2 { fps: 5 });
    assert_eq!(session.config.fps, 5);
}

#[test]
fn each_run_has_its_own_number() {
    let mut driver = HubDriver::new();
    let mut gop = Gop::new();
    assert_eq!(driver.epoch, 0);
    assert!(driver.look(1));
    driver.start(config(), 1, &mut gop);
    assert_eq!(driver.epoch, 1);
    let frame = driver.media(key(), &mut gop).broadcast.unwrap();
    assert_eq!(frame.epoch, 1);
    driver.finish(StreamEnd::Closed, &mut gop);
    assert!(gop.backlog().is_empty());
    assert!(driver.look(1));
    driver.start(config(), 1, &mut gop);
    let frame = driver.media(key(), &mut gop).broadcast.unwrap();
    assert_eq!(frame.epoch, 2);
    assert!(gop.backlog().iter().all(|frame| frame.epoch == 2));
}

#[test]
fn frames_are_kept_and_sent_and_information_is_not() {
    let mut driver = HubDriver::new();
    let mut gop = Gop::new();
    assert!(driver.look(1));
    driver.start(config(), 1, &mut gop);
    assert!(driver.media(Media::InfoV1 { fps: 25 }, &mut gop).broadcast.is_none());
    assert!(driver.media(Media::InfoV2 { fps: 25 }, &mut gop).broadcast.is_none());
    assert!(gop.backlog().is_empty());
    for media in [delta(), key(), delta(), aac()] {
        assert!(driver.media(media, &mut gop).broadcast.is_some());
    }
    assert_eq!(gop.backlog().len(), 3);
}

#[test]
fn the_configuration_is_announced_with_the_packet_that_completes_it() {
    let mut driver = HubDriver::new();
    let mut gop = Gop::new();
    assert!(driver.look(1));
    driver.start(config(), 1, &mut gop);
    assert!(driver.media(key(), &mut gop).announce.is_none());
    let orders = driver.media(aac(), &mut gop);
    assert_eq!(orders.announce.unwrap().aud_type, Some(AudioType::Aac));
    assert!(orders.broadcast.is_some());
    assert!(driver.media(aac(), &mut gop).announce.is_none());
}

#[test]
fn a_stream_without_clients_is_closed_after_half_a_minute() {
    assert_eq!(idle_countdown(0), Some(30));
    assert_eq!(idle_countdown(1), None);
    let mut driver = HubDriver::new();
    let mut gop = Gop::new();
    assert!(driver.look(1));
    assert_eq!(driver.start(config(), 0, &mut gop), Some(30));
    assert_eq!(driver.clients_changed(2), None);
    assert_eq!(driver.clients_changed(0), Some(30));
    assert_eq!(driver.finish(StreamEnd::Idle, &mut gop), None);
    assert!(driver.session.is_none());
}

#[test]
fn a_stream_that_failed_is_tried_again_after_a_pause() {
    let mut driver = HubDriver::new();
    let mut gop = Gop::new();
    assert!(driver.look(1));
    assert_eq!(driver.start(config(), 1, &mut gop), None);
    driver.media(key(), &mut gop);
    assert_eq!(driver.finish(StreamEnd::Closed, &mut gop), Some(500));
    assert!(gop.backlog().is_empty());
}

#[test]
fn a_new_run_starts_with_an_empty_group() {
    let mut driver = HubDriver::new();
    let mut gop = Gop::new();
    gop.publish(&std::sync::Arc::new(rtsp_factory::HubFrame { epoch: 9, media: key() }));
    assert!(driver.look(1));
    driver.start(config(), 1, &mut gop);
    assert!(gop.backlog().is_empty());
}

#[test]
fn clients_that_come_and_go_do_not_bring_the_configuration_again() {
    let mut driver = HubDriver::new();
    let mut gop = Gop::new();
    assert!(driver.look(1));
    driver.start(config(), 1, &mut gop);
    for clients in 0..10 {
        assert!(driver.media(key(), &mut gop).announce.is_none());
        driver.clients_changed(clients);
    }
    assert!(driver.media(key(), &mut gop).announce.is_some());
    driver.clients_changed(0);
    driver.clients_changed(1);
    assert!(driver.media(aac(), &mut gop).announce.is_none());
}

#[test]
fn a_run_is_only_wanted_once_a_client_has_been_seen() {
    let mut driver = HubDriver::new();
    let mut gop = Gop::new();
    assert!(!driver.look(0));
    assert!(!driver.wanted);
    assert!(driver.look(2));
    assert!(driver.wanted);
    assert!(!driver.look(0));
    assert!(driver.wanted);
    driver.start(config(), 0, &mut gop);
    assert!(!driver.wanted);
    driver.finish(StreamEnd::Idle, &mut gop);
    assert!(!driver.wanted);
    assert!(!driver.look(0));
    assert!(!driver.wanted);
}

#[test]
fn epochs_rise_with_the_runs_and_never_fall() {
    let mut driver = HubDriver::new();
    let mut gop = Gop::new();
    let mut epochs = vec![];
    for run in 0..3 {
        assert!(driver.look(1));
        driver.start(config(), 1, &mut gop);
        for _ in 0..=run {
            epochs.push(driver.media(key(), &mut gop).broadcast.unwrap().epoch);
            driver.clients_changed(2);
        }
        driver.finish(StreamEnd::Closed, &mut gop);
    }
    assert_eq!(epochs, vec![1, 2, 2, 3, 3, 3]);
}
