use rtsp_factory::config::{find_encode, look_up};
use rtsp_factory::{AudioType, EncodeTable, Media, StreamConfig, StreamInfo, VideoType};

fn encode(name: &str, bitrate: u32, framerate: u32) -> EncodeTable {
    EncodeTable {
        name: name.to_string(),
        width: 2560,
        height: 1440,
        default_bitrate: bitrate,
        default_framerate: framerate,
        bitrate_table: "1024,1536,2048".to_string(),
        framerate_table: "30,25,22,20".to_string(),
    }
}

fn infos() -> Vec<StreamInfo> {
    vec![
        StreamInfo { encode_tables: vec![] },
        StreamInfo {
            encode_tables: vec![encode("subStream", 0, 0), encode("mainStream", 1, 1)],
        },
        StreamInfo {
            encode_tables: vec![encode("mainStream", 2, 2)],
        },
    ]
}

#[test]
fn defaults_are_places_in_the_tables() {
    let config = StreamConfig::new(&infos(), "mainStream");
    assert_eq!(config.resolution, [2560, 1440]);
    assert_eq!(config.bitrate, 1536 * 1024);
    assert_eq!(config.fps, 25);
    assert_eq!(config.bitrate_table, vec![1024, 1536, 2048]);
    assert_eq!(config.fps_table, vec![30, 25, 22, 20]);
    assert!(config.vid_type.is_none());
    assert!(config.aud_type.is_none());
}

#[test]
fn defaults_beyond_the_tables_stand_for_themselves() {
    let infos = vec![StreamInfo {
        encode_tables: vec![encode("mainStream", 3, 15)],
    }];
    let config = StreamConfig::new(&infos, "mainStream");
    assert_eq!(config.bitrate, 3 * 1024);
    assert_eq!(config.fps, 15);
}

#[test]
fn the_first_encoding_of_the_name_counts() {
    let infos = infos();
    assert_eq!(find_encode(&infos, "mainStream").unwrap().default_bitrate, 1);
    assert_eq!(find_encode(&infos, "subStream").unwrap().default_bitrate, 0);
    assert!(find_encode(&infos, "mainstream").is_none());
}

#[test]
fn a_stream_that_is_not_listed_has_an_empty_configuration() {
    let config = StreamConfig::new(&infos(), "otherStream");
    assert_eq!(config.resolution, [0, 0]);
    assert_eq!(config.bitrate, 0);
    assert_eq!(config.fps, 0);
    assert!(config.bitrate_table.is_empty());
    assert!(config.fps_table.is_empty());
}

#[test]
fn a_bitrate_has_to_fit_in_bits() {
    let with = |bitrate: u32| {
        vec![StreamInfo {
            encode_tables: vec![encode("mainStream", bitrate, 0)],
        }]
    };
    assert!(StreamConfig::bitrate_fits(&with(4194303), "mainStream"));
    assert_eq!(StreamConfig::new(&with(4194303), "mainStream").bitrate, 4294966272);
    assert!(!StreamConfig::bitrate_fits(&with(4194304), "mainStream"));
    assert!(StreamConfig::bitrate_fits(&with(4194304), "subStream"));
}

#[test]
fn look_up_falls_back_to_the_place() {
    assert_eq!(look_up(&vec![10, 20], 1), 20);
    assert_eq!(look_up(&vec![10, 20], 2), 2);
    assert_eq!(look_up(&vec![], 0), 0);
}

#[test]
fn rates_are_updated_through_their_tables() {
    let mut config = StreamConfig::new(&infos(), "mainStream");
    config.update_fps(0);
    assert_eq!(config.fps, 30);
    config.update_fps(12);
    assert_eq!(config.fps, 12);
    config.update_bitrate(2);
    assert_eq!(config.bitrate, 2048);
    config.update_bitrate(777);
    assert_eq!(config.bitrate, 777);
}

#[test]
fn media_teaches_rates_and_encodings() {
    let mut config = StreamConfig::new(&infos(), "mainStream");
    config.update_from_media(&Media::InfoV1 { fps: 3 });
    assert_eq!(config.fps, 20);
    config.update_from_media(&Media::InfoV2 { fps: 10 });
    assert_eq!(config.fps, 10);
    config.update_from_media(&Media::Iframe {
        video_type: VideoType::H265,
        data: vec![1],
    });
    assert_eq!(config.vid_type, Some(VideoType::H265));
    assert_eq!(config.aud_type, None);
    config.update_from_media(&Media::Adpcm {
        data: vec![],
        block_size: 244,
        duration: None,
    });
    assert_eq!(config.aud_type, Some(AudioType::Adpcm(244)));
    config.update_from_media(&Media::Aac { data: vec![], duration: None });
    assert_eq!(config.aud_type, Some(AudioType::Aac));
    config.update_from_media(&Media::Pframe {
        video_type: VideoType::H264,
        data: vec![],
    });
    assert_eq!(config.vid_type, Some(VideoType::H264));
    assert_eq!(config.fps, 10);
    assert_eq!(config.bitrate, 1536 * 1024);
}

#[test]
fn a_clone_is_the_same_configuration() {
    let mut config = StreamConfig::new(&infos(), "subStream");
    config.update_from_media(&Media::Aac { data: vec![], duration: None });
    let copy = config.clone();
    assert_eq!(format!("{copy:?}"), format!("{config:?}"));
}

#[test]
fn what_is_listed_behind_the_first_of_a_name_changes_nothing() {
    let mut more = infos();
    more[1].encode_tables.push(encode("mainStream", 0, 0));
    more.push(StreamInfo { encode_tables: vec![encode("mainStream", 2, 3)] });
    let first = StreamConfig::new(&infos(), "mainStream");
    let config = StreamConfig::new(&more, "mainStream");
    assert_eq!(config.bitrate, first.bitrate);
    assert_eq!(config.fps, first.fps);
    assert_eq!(config.fps, 25);
}
