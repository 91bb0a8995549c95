use rtsp_factory::pipelines::{
    buffer_size, build_aac, build_adpcm, build_h264, build_h265, build_unknown, dummy_plan,
    make_dbl_queue, pipe_silence, plan_client, servable,
};
use rtsp_factory::script::{Making, Script, Step, Value, When};
use rtsp_factory::{AudioType, StreamConfig, VideoType};

fn config() -> StreamConfig {
    let mut config = StreamConfig::new(&vec![], "mainStream");
    config.fps = 25;
    config.bitrate = 2048 * 1024;
    config
}

/// The plan as text, one line per step.
fn text(script: &Script) -> Vec<String> {
    script
        .lines
        .iter()
        .map(|line| {
            let value = |value: &Value| match value {
                Value::Flag(v) => format!("{v}"),
                Value::Int(v) => format!("{v}i"),
                Value::UInt(v) => format!("{v}u"),
                Value::ULong(v) => format!("{v}ul"),
                Value::Text(v) => format!("'{v}'"),
                Value::Parsed(v) => v.to_string(),
                Value::Fraction(n, d) => format!("{n}/{d}"),
            };
            let caps = |caps: &rtsp_factory::script::MediaCaps| {
                let fields: Vec<String> = caps
                    .fields
                    .iter()
                    .map(|field| format!("{}={}", field.name, value(&field.value)))
                    .collect();
                format!("{},{}", caps.media_type, fields.join(","))
            };
            let when = match line.when {
                When::Always => String::new(),
                When::Made(e) => format!("if {e}: "),
                When::Missing(e) => format!("unless {e}: "),
            };
            let step = match &line.step {
                Step::Make { kind, name } => format!("make {kind} {name}"),
                Step::MakeEither { kind, name, other_kind, other_name } => {
                    format!("make {kind} {name} or {other_kind} {other_name}")
                }
                Step::TryMake { kind, name } => format!("try {kind} {name}"),
                Step::SetUpSource { element, settings } => format!(
                    "source {element} {} {} {} {} {} {} {:?}",
                    settings.is_live,
                    settings.block,
                    settings.min_latency,
                    settings.emit_signals,
                    settings.max_bytes,
                    settings.do_timestamp,
                    settings.stream_type
                ),
                Step::Assign { element, property, value: v } => {
                    format!("set {element} {property} {}", value(v))
                }
                Step::Describe { element, caps: c } => format!("caps {element} {}", caps(c)),
                Step::Insert { elements } => format!("add {elements:?}"),
                Step::Link { elements } => format!("link {elements:?}"),
                Step::LinkFiltered { from, to, caps: c } => {
                    format!("link {from} {to} for {}", caps(c))
                }
                Step::LinkLater { from, to, pad } => format!("link {from} {to} later at {pad}"),
                Step::Expose { element, pad } => format!("expose {element} {pad}"),
            };
            format!("{when}{step}")
        })
        .collect()
}

fn queue(element: usize, name: &str, size: u32) -> Vec<String> {
    vec![
        format!("make queue queue1_{name}"),
        format!("set {element} max-size-bytes {size}u"),
        format!("set {element} max-size-buffers 0u"),
        format!("set {element} max-size-time 0ul"),
        format!("set {element} max-size-time 5000000000ul"),
    ]
}

fn lines(lines: &[&str]) -> Vec<String> {
    lines.iter().map(|line| line.to_string()).collect()
}

#[test]
fn a_buffer_holds_a_tenth_of_a_second_or_4_kb() {
    assert_eq!(buffer_size(0), 4096);
    assert_eq!(buffer_size(327759), 4096);
    assert_eq!(buffer_size(327760), 4097);
    assert_eq!(buffer_size(2_097_152), 26214);
    assert_eq!(buffer_size(u32::MAX), 53687091);
}

#[test]
fn the_h264_pipeline_is_parsed_and_payloaded() {
    let plan = build_h264(&config());
    let mut expected = lines(&["make appsrc vidsrc", "source 0 false false 40 false 26214 false Stream"]);
    expected.extend(queue(1, "source_queue", 26214));
    expected.extend(lines(&[
        "make h264parse parser",
        "add [0, 1, 2]",
        "link [0, 1, 2]",
        "make rtph264pay pay0",
        "add [3]",
        "link [2, 3]",
    ]));
    assert_eq!(text(&plan.script), expected);
    assert_eq!(plan.source, Some(0));
}

#[test]
fn the_h265_pipeline_is_parsed_and_payloaded() {
    let plan = build_h265(&config());
    let mut expected = lines(&["make appsrc vidsrc", "source 0 false false 40 false 26214 false Stream"]);
    expected.extend(queue(1, "source_queue", 26214));
    expected.extend(lines(&[
        "make h265parse parser",
        "add [0, 1, 2]",
        "link [0, 1, 2]",
        "make rtph265pay pay0",
        "add [3]",
        "link [2, 3]",
    ]));
    assert_eq!(text(&plan.script), expected);
    assert_eq!(plan.source, Some(0));
}

#[test]
fn the_aac_pipeline_falls_back_to_silence_where_it_can() {
    let plan = build_aac(&config());
    let mut expected = lines(&["make appsrc audsrc", "source 0 false false 40 false 724992 false Stream"]);
    expected.extend(queue(1, "audqueue", 724992));
    expected.extend(lines(&[
        "make aacparse audparser",
        "make faad auddecoder_faad or avdec_aac auddecoder_avdec_aac",
        "make audiotestsrc audsilence",
        "set 4 wave silence",
        "try fallbackswitch audfallbackswitch",
        "if 5: set 5 timeout 3000000000ul",
        "if 5: set 5 immediate-fallback true",
        "make audioconvert audencoder",
        "add [0, 1, 2, 3, 6]",
        "if 5: add [4, 5]",
        "if 5: link [0, 1, 2, 3, 5, 6]",
        "if 5: link [4, 5]",
        "unless 5: link [0, 1, 2, 3, 6]",
        "make rtpL16pay pay1",
        "add [7]",
        "link [6, 7]",
    ]));
    assert_eq!(text(&plan.script), expected);
    assert_eq!(plan.source, Some(0));
}

#[test]
fn the_adpcm_pipeline_describes_its_blocks() {
    let plan = build_adpcm(244, &config());
    let mut expected = lines(&[
        "make appsrc audsrc",
        "source 0 false false 40 false 724992 false Stream",
        "caps 0 audio/x-adpcm,layout='dvi',block_align=244i,channels=1i,rate=8000i",
    ]);
    expected.extend(queue(1, "audqueue", 724992));
    expected.extend(lines(&[
        "make decodebin auddecoder",
        "make audioconvert audencoder",
        "add [0, 1, 2, 3]",
        "link [0, 1, 2]",
        "link 2 3 later at sink",
        "make rtpL16pay pay1",
        "add [4]",
        "link [3, 4]",
    ]));
    assert_eq!(text(&plan.script), expected);
    assert_eq!(plan.source, Some(0));
}

#[test]
fn the_silence_pipeline_swallows_its_audio() {
    let linked = pipe_silence(&config());
    let mut expected = lines(&["make appsrc audsrc", "source 0 false false 40 false 724992 false Stream"]);
    expected.extend(queue(1, "audsinkqueue", 724992));
    expected.extend(lines(&[
        "make fakesink silence_sink",
        "make audiotestsrc audsilence",
        "set 3 wave silence",
    ]));
    expected.extend(queue(4, "audsinkqueue", 724992));
    expected.extend(lines(&[
        "make audioconvert audencoder",
        "add [0, 1, 2, 3, 4, 5]",
        "link [0, 1, 2]",
        "link [3, 4, 5]",
    ]));
    assert_eq!(text(&linked.script), expected);
    assert_eq!((linked.source, linked.output), (0, 5));
}

#[test]
fn the_splash_screen_shows_its_pattern() {
    let plan = build_unknown("snow");
    let mut expected = lines(&[
        "make videotestsrc testvidsrc",
        "set 0 pattern snow",
        "set 0 num-buffers 500i",
    ]);
    expected.extend(queue(1, "queue0", 4194304));
    expected.extend(lines(&[
        "make textoverlay overlay",
        "set 2 text 'Stream not Ready'",
        "set 2 valignment top",
        "set 2 halignment left",
        "set 2 font-desc 'Sans, 16'",
        "make jpegenc encoder",
        "make rtpjpegpay pay0",
        "add [0, 1, 2, 3, 4]",
        "link 0 1 for video/x-raw,format='YUY2',width=896i,height=512i,framerate=25/1",
        "link [1, 2, 3, 4]",
    ]));
    assert_eq!(text(&plan.script), expected);
    assert_eq!(plan.source, None);
}

#[test]
fn a_double_queue_is_two_queues_with_pads() {
    let script = make_dbl_queue("video", 3001);
    assert_eq!(
        text(&script),
        lines(&[
            "make queue queue1_video",
            "set 0 max-size-bytes 3001u",
            "set 0 max-size-buffers 0u",
            "set 0 max-size-time 0ul",
            "make queue2 queue2_video",
            "set 1 max-size-bytes 2000u",
            "set 0 max-size-buffers 0u",
            "set 0 max-size-time 0ul",
            "set 1 max-size-time 5000000000ul",
            "set 1 use-buffering false",
            "add [0, 1]",
            "link [0, 1]",
            "expose 0 sink",
            "expose 1 src",
        ])
    );
}

#[test]
fn a_dummy_shows_the_splash_screen_or_nothing() {
    assert!(dummy_plan(false, "snow").is_none());
    let plan = dummy_plan(true, "snow").unwrap();
    assert_eq!(text(&plan.script), text(&build_unknown("snow").script));
}

#[test]
fn a_client_gets_the_encodings_of_its_stream() {
    let mut config = config();
    let plan = plan_client(&config, "bars");
    assert_eq!(text(&plan.video.script), text(&build_unknown("bars").script));
    assert_eq!(plan.video.source, None);
    assert!(plan.audio.is_none());

    config.vid_type = Some(VideoType::H264);
    config.aud_type = Some(AudioType::Aac);
    let plan = plan_client(&config, "bars");
    assert_eq!(text(&plan.video.script), text(&build_h264(&config).script));
    assert_eq!(plan.video.source, Some(0));
    assert_eq!(text(&plan.audio.unwrap().script), text(&build_aac(&config).script));

    config.vid_type = Some(VideoType::H265);
    config.aud_type = Some(AudioType::Adpcm(504));
    let plan = plan_client(&config, "bars");
    assert_eq!(text(&plan.video.script), text(&build_h265(&config).script));
    assert_eq!(text(&plan.audio.unwrap().script), text(&build_adpcm(504, &config).script));
}

#[test]
fn a_stream_needs_a_frame_rate_to_be_served() {
    let mut config = StreamConfig::new(&vec![], "mainStream");
    assert!(servable(&config));
    config.aud_type = Some(AudioType::Aac);
    assert!(!servable(&config));
    config.fps = 1;
    assert!(servable(&config));
    config.vid_type = Some(VideoType::H264);
    config.bitrate = u32::MAX;
    assert!(servable(&config));
    config.fps = 0;
    config.aud_type = None;
    assert!(!servable(&config));
}

#[test]
fn lines_apply_by_what_could_be_made() {
    let exists = vec![true, false];
    assert!(When::Always.applies(&exists));
    assert!(When::Made(0).applies(&exists));
    assert!(!When::Made(1).applies(&exists));
    assert!(!When::Made(2).applies(&exists));
    assert!(!When::Missing(0).applies(&exists));
    assert!(When::Missing(1).applies(&exists));
}

/// Every line deals with elements that exist by then, with and without the optional ones.
#[test]
fn plans_only_use_what_they_have_made() {
    let config = config();
    for script in [
        build_h264(&config).script,
        build_h265(&config).script,
        build_aac(&config).script,
        build_adpcm(1, &config).script,
        build_unknown("snow").script,
        pipe_silence(&config).script,
        make_dbl_queue("q", 10),
    ] {
        for optional in [true, false] {
            let mut exists: Vec<bool> = vec![];
            let mut inserted: Vec<usize> = vec![];
            for line in &script.lines {
                if !line.when.applies(&exists) {
                    continue;
                }
                match &line.step {
                    Step::Make { .. } | Step::MakeEither { .. } => exists.push(true),
                    Step::TryMake { .. } => exists.push(optional),
                    Step::Insert { elements } => {
                        assert!(elements.iter().all(|e| exists[*e]));
                        inserted.extend(elements);
                    }
                    Step::Link { elements } => {
                        assert!(elements.iter().all(|e| inserted.contains(e)));
                    }
                    Step::LinkFiltered { from, to, .. } | Step::LinkLater { from, to, .. } => {
                        assert!(inserted.contains(from) && inserted.contains(to));
                    }
                    Step::SetUpSource { element, .. }
                    | Step::Assign { element, .. }
                    | Step::Describe { element, .. }
                    | Step::Expose { element, .. } => assert!(exists[*element]),
                }
            }
        }
    }
}

/// The names of the elements that a plan may make.
fn names(script: &Script) -> Vec<String> {
    script
        .lines
        .iter()
        .flat_map(|line| match &line.step {
            Step::Make { name, .. } | Step::TryMake { name, .. } => vec![name.to_string()],
            Step::MakeEither { name, other_name, .. } => {
                vec![name.to_string(), other_name.to_string()]
            }
            _ => vec![],
        })
        .collect()
}

#[test]
fn the_elements_of_a_client_have_names_of_their_own() {
    let mut config = config();
    for vid_type in [None, Some(VideoType::H264), Some(VideoType::H265)] {
        for aud_type in [AudioType::Aac, AudioType::Adpcm(504)] {
            config.vid_type = vid_type;
            config.aud_type = Some(aud_type);
            let plan = plan_client(&config, "bars");
            let mut all = names(&plan.video.script);
            all.extend(names(&plan.audio.unwrap().script));
            let count = all.len();
            assert!(all.contains(&"pay0".to_string()));
            assert!(all.contains(&"pay1".to_string()));
            all.sort();
            all.dedup();
            assert_eq!(all.len(), count);
        }
    }
}

/// What a step does after so many failures.
fn making(step: &Step, failures: usize) -> String {
    match step.making(failures) {
        Making::Try { kind, name } => format!("{kind} {name}"),
        Making::GoWithout => "go without".to_string(),
        Making::GiveUp => "give up".to_string(),
        Making::Nothing => "nothing".to_string(),
    }
}

#[test]
fn the_second_kind_is_tried_only_after_the_first() {
    let either = Step::MakeEither {
        kind: "faad",
        name: "a".to_string(),
        other_kind: "avdec_aac",
        other_name: "b".to_string(),
    };
    assert_eq!(making(&either, 0), "faad a");
    assert_eq!(making(&either, 1), "avdec_aac b");
    assert_eq!(making(&either, 2), "give up");
    assert_eq!(making(&either, 3), "give up");
}

#[test]
fn only_an_optional_element_is_gone_without() {
    let make = Step::Make { kind: "queue", name: "a".to_string() };
    assert_eq!(making(&make, 0), "queue a");
    assert_eq!(making(&make, 1), "give up");
    let optional = Step::TryMake { kind: "fallbackswitch", name: "b".to_string() };
    assert_eq!(making(&optional, 0), "fallbackswitch b");
    assert_eq!(making(&optional, 1), "go without");
    let link = Step::Link { elements: vec![0, 1] };
    assert_eq!(making(&link, 0), "nothing");
}
