use std::sync::Arc;

use rtsp_factory::{AudioType, FrameData, HubFrame, Media, VideoType};

fn key(data: Vec<u8>) -> Media {
    Media::Iframe {
        video_type: VideoType::H264,
        data,
    }
}

#[test]
fn only_an_iframe_is_a_keyframe() {
    assert!(HubFrame { epoch: 1, media: key(vec![]) }.is_keyframe());
    let pframe = Media::Pframe {
        video_type: VideoType::H265,
        data: vec![1],
    };
    assert!(!HubFrame { epoch: 1, media: pframe }.is_keyframe());
    let aac = Media::Aac { data: vec![], duration: None };
    assert!(!HubFrame { epoch: 1, media: aac }.is_keyframe());
}

#[test]
fn frame_data_gives_the_bytes_of_the_frame() {
    let bytes = |media: Media| -> Vec<u8> {
        FrameData(Arc::new(HubFrame { epoch: 7, media }))
            .as_ref()
            .to_vec()
    };
    assert_eq!(bytes(key(vec![1, 2, 3])), vec![1, 2, 3]);
    let pframe = Media::Pframe {
        video_type: VideoType::H264,
        data: vec![4],
    };
    assert_eq!(bytes(pframe), vec![4]);
    assert_eq!(bytes(Media::Aac { data: vec![5, 6], duration: Some(1) }), vec![5, 6]);
    let adpcm = Media::Adpcm {
        data: vec![7, 8],
        block_size: 4,
        duration: None,
    };
    assert_eq!(bytes(adpcm), vec![7, 8]);
    assert!(bytes(Media::InfoV1 { fps: 25 }).is_empty());
    assert!(bytes(Media::InfoV2 { fps: 25 }).is_empty());
}

#[test]
fn stream_information_is_no_frame() {
    assert!(!Media::InfoV1 { fps: 1 }.is_frame());
    assert!(!Media::InfoV2 { fps: 1 }.is_frame());
    assert!(key(vec![]).is_frame());
    assert!(Media::Aac { data: vec![], duration: None }.is_frame());
}

#[test]
fn an_unknown_duration_counts_as_zero() {
    assert_eq!(Media::Aac { data: vec![], duration: Some(64000) }.duration_or_zero(), 64000);
    assert_eq!(Media::Aac { data: vec![], duration: None }.duration_or_zero(), 0);
    let adpcm = Media::Adpcm {
        data: vec![],
        block_size: 244,
        duration: Some(61000),
    };
    assert_eq!(adpcm.duration_or_zero(), 61000);
    assert_eq!(key(vec![]).duration_or_zero(), 0);
}

#[test]
fn audio_types_carry_their_block_size() {
    assert_eq!(AudioType::Adpcm(4), AudioType::Adpcm(4));
    assert_ne!(AudioType::Adpcm(4), AudioType::Adpcm(5));
    assert_ne!(AudioType::Adpcm(4), AudioType::Aac);
}
