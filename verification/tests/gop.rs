use std::sync::Arc;

use rtsp_factory::gop::GOP_MAX_FRAMES;
use rtsp_factory::{Gop, HubFrame, Media, VideoType};

fn frame(key: bool, id: u8) -> Arc<HubFrame> {
    let data = vec![id];
    let video_type = VideoType::H264;
    let media = if key {
        Media::Iframe { video_type, data }
    } else {
        Media::Pframe { video_type, data }
    };
    Arc::new(HubFrame { epoch: 1, media })
}

fn ids(gop: &Gop) -> Vec<u8> {
    gop.backlog()
        .iter()
        .map(|frame| match &frame.media {
            Media::Iframe { data, .. } | Media::Pframe { data, .. } => data[0],
            _ => 0,
        })
        .collect()
}

#[test]
fn nothing_is_kept_before_the_first_keyframe() {
    let mut gop = Gop::new();
    gop.publish(&frame(false, 1));
    gop.publish(&frame(false, 2));
    assert!(gop.backlog().is_empty());
}

#[test]
fn a_keyframe_replaces_what_was_kept() {
    let mut gop = Gop::new();
    gop.publish(&frame(false, 1));
    gop.publish(&frame(true, 2));
    gop.publish(&frame(false, 3));
    gop.publish(&frame(false, 4));
    assert_eq!(ids(&gop), vec![2, 3, 4]);
    gop.publish(&frame(true, 5));
    assert_eq!(ids(&gop), vec![5]);
}

#[test]
fn audio_is_kept_behind_a_keyframe() {
    let mut gop = Gop::new();
    let audio = Arc::new(HubFrame {
        epoch: 1,
        media: Media::Aac { data: vec![], duration: None },
    });
    gop.publish(&audio);
    assert!(gop.backlog().is_empty());
    gop.publish(&frame(true, 1));
    gop.publish(&audio);
    assert_eq!(gop.backlog().len(), 2);
}

#[test]
fn no_more_than_the_bound_is_kept() {
    let mut gop = Gop::new();
    gop.publish(&frame(true, 1));
    for _ in 0..2 * GOP_MAX_FRAMES {
        gop.publish(&frame(false, 2));
    }
    assert_eq!(gop.backlog().len(), 1000);
    assert!(gop.backlog()[0].is_keyframe());
}

#[test]
fn a_cleared_group_is_empty() {
    let mut gop = Gop::new();
    gop.publish(&frame(true, 1));
    gop.clear();
    assert!(gop.backlog().is_empty());
    gop.publish(&frame(false, 2));
    assert!(gop.backlog().is_empty());
}

#[test]
fn a_new_client_misses_no_frame() {
    let history = [frame(true, 1), frame(false, 2), frame(true, 3), frame(false, 4)];
    let later = [5, 6];
    let mut gop = Gop::new();
    for frame in &history {
        gop.publish(frame);
    }
    let mut seen = ids(&gop);
    seen.extend(later);
    assert_eq!(seen, vec![3, 4, 5, 6]);
}

#[test]
fn a_client_that_comes_after_a_restart_gets_the_new_group() {
    let mut gop = Gop::new();
    gop.publish(&frame(true, 1));
    gop.publish(&frame(false, 2));
    gop.clear();
    gop.publish(&frame(false, 3));
    assert!(gop.backlog().is_empty());
    gop.publish(&frame(true, 4));
    gop.publish(&frame(false, 5));
    assert_eq!(ids(&gop), vec![4, 5]);
}
