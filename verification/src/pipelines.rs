//! The pipelines that clients are served with.

use vstd::prelude::*;
use vstd::string::StringExecFns;

use crate::config::{StreamConfig, StreamConfigView};
use crate::media::{AudioType, VideoType};
use crate::script::{
    always, group_script_steps, holds, is_sound, is_taken, made_as, makes, CapsField, LineView,
    MediaCaps, MediaCapsView, Script, SourceSettings, Step, StepView, StreamType, Value, ValueView,
    When,
};

verus! {

/// Bytes that an audio source may have queued. Audio seems to run at about 800 kbit/s.
pub const AUDIO_BUFFER_SIZE: u32 = 724992;

/// Bytes that the queue of the splash screen may hold.
pub const SPLASH_BUFFER_SIZE: u32 = 4194304;

/// The least size of a video buffer, in bytes.
pub const LEAST_BUFFER_SIZE: u32 = 4096;

/// The most that a queue may hold, in nanoseconds.
pub const QUEUE_TIME_NANOS: u64 = 5000000000;

/// Nanoseconds without audio after which silence is played.
pub const SILENCE_TIMEOUT_NANOS: u64 = 3000000000;

/// The size of a video buffer for a bitrate, in bytes: what comes in 0.1 seconds, or 4 kB, what
/// ever is larger.
pub open spec fn video_buffer(bitrate: u32) -> u32 {
    if bitrate / 8 / 10 >= LEAST_BUFFER_SIZE {
        bitrate / 8 / 10
    } else {
        LEAST_BUFFER_SIZE
    }
}

/// The size of a video buffer for a bitrate, in bytes: what comes in 0.1 seconds, or 4 kB, what
/// ever is larger.
pub fn buffer_size(bitrate: u32) -> (r: u32)
    ensures
        r == video_buffer(bitrate),
{
    let size: u32 = bitrate / 8 / 10;
    if size >= LEAST_BUFFER_SIZE {
        size
    } else {
        LEAST_BUFFER_SIZE
    }
}

/// A line that makes an element.
pub open spec fn make(kind: Seq<char>, name: Seq<char>) -> LineView {
    always(StepView::Make { kind, name })
}

/// A line that sets a property.
pub open spec fn assign(element: usize, property: Seq<char>, value: ValueView) -> LineView {
    always(StepView::Assign { element, property, value })
}

/// A line that puts elements into the bin.
pub open spec fn insert(elements: Seq<usize>) -> LineView {
    always(StepView::Insert { elements })
}

/// A line that links elements into a chain.
pub open spec fn link(elements: Seq<usize>) -> LineView {
    always(StepView::Link { elements })
}

/// The settings of a source in a stream of so many frames per second.
pub open spec fn source_settings(fps: u32, max_bytes: u32) -> SourceSettings {
    SourceSettings {
        is_live: false,
        block: false,
        min_latency: (1000int / fps as int) as i64,
        emit_signals: false,
        max_bytes: max_bytes as u64,
        do_timestamp: false,
        stream_type: StreamType::Stream,
    }
}

/// The lines that make a source, as element 0.
pub open spec fn source_lines(name: Seq<char>, fps: u32, max_bytes: u32) -> Seq<LineView> {
    Seq::<LineView>::empty().push(make("appsrc"@, name)).push(
        always(
            StepView::SetUpSource { element: 0, settings: source_settings(fps, max_bytes) },
        ),
    )
}

/// Some lines, and those that make a queue of a size.
pub open spec fn with_queue(
    lines: Seq<LineView>,
    element: usize,
    name: Seq<char>,
    size: u32,
) -> Seq<LineView> {
    lines.push(make("queue"@, "queue1_"@ + name)).push(
        assign(element, "max-size-bytes"@, ValueView::UInt(size)),
    ).push(assign(element, "max-size-buffers"@, ValueView::UInt(0))).push(
        assign(element, "max-size-time"@, ValueView::ULong(0)),
    ).push(assign(element, "max-size-time"@, ValueView::ULong(QUEUE_TIME_NANOS)))
}

/// A plan that is not finished: its source, and the element that its media comes out of.
#[derive(Debug)]
pub struct Linked {
    pub script: Script,
    pub source: usize,
    pub output: usize,
}

/// Some lines, and those that turn what an element gives into packets for the network.
pub open spec fn with_payloader(
    lines: Seq<LineView>,
    output: usize,
    payloader: usize,
    kind: Seq<char>,
    name: Seq<char>,
) -> Seq<LineView> {
    lines.push(make(kind, name)).push(insert(seq![payloader])).push(link(seq![output, payloader]))
}

/// The lines of a video pipeline, up to its parser.
pub open spec fn video_lines(parser: Seq<char>, bitrate: u32, fps: u32) -> Seq<LineView> {
    with_queue(
        source_lines("vidsrc"@, fps, video_buffer(bitrate)),
        1,
        "source_queue"@,
        video_buffer(bitrate),
    ).push(make(parser, "parser"@)).push(insert(seq![0, 1, 2])).push(link(seq![0, 1, 2]))
}

/// Makes an element of a kind, under a name.
fn add_element(script: &mut Script, kind: &'static str, name: &str)
    ensures
        final(script)@ == old(script)@.push(make(kind@, name@)),
{
    script.step(Step::Make { kind, name: name.to_owned() })
}

/// Sets a property of an element.
fn assign_value(script: &mut Script, element: usize, property: &'static str, value: Value)
    ensures
        final(script)@ == old(script)@.push(assign(element, property@, value@)),
{
    script.step(Step::Assign { element, property, value })
}

/// Puts elements into the bin.
fn insert_elements(script: &mut Script, elements: Vec<usize>)
    ensures
        final(script)@ == old(script)@.push(insert(elements@)),
{
    script.step(Step::Insert { elements })
}

/// Links elements into a chain.
fn link_elements(script: &mut Script, elements: Vec<usize>)
    ensures
        final(script)@ == old(script)@.push(link(elements@)),
{
    script.step(Step::Link { elements })
}

/// Starts a plan with a source, in a stream of so many frames per second.
fn make_source(name: &str, fps: u32, max_bytes: u32) -> (r: Script)
    requires
        fps > 0,
    ensures
        r@ == source_lines(name@, fps, max_bytes),
{
    let mut script = Script::new();
    add_element(&mut script, "appsrc", name);
    let min_latency: i64 = 1000i64 / (fps as i64);
    script.step(
        Step::SetUpSource {
            element: 0,
            settings: SourceSettings {
                is_live: false,
                block: false,
                min_latency,
                emit_signals: false,
                max_bytes: max_bytes as u64,
                do_timestamp: false,
                stream_type: StreamType::Stream,
            },
        },
    );
    script
}

/// Makes a queue that holds up to so many bytes, as the element of this number.
pub fn make_queue(script: &mut Script, element: usize, name: &str, buffer_size: u32)
    ensures
        final(script)@ == with_queue(old(script)@, element, name@, buffer_size),
{
    let mut full_name = "queue1_".to_owned();
    full_name.append(name);
    add_element(script, "queue", full_name.as_str());
    assign_value(script, element, "max-size-bytes", Value::UInt(buffer_size));
    assign_value(script, element, "max-size-buffers", Value::UInt(0));
    assign_value(script, element, "max-size-time", Value::ULong(0));
    assign_value(script, element, "max-size-time", Value::ULong(QUEUE_TIME_NANOS));
}

/// A video pipeline, up to its parser.
fn pipe_video(parser: &'static str, stream_config: &StreamConfig) -> (r: Linked)
    requires
        stream_config.fps > 0,
    ensures
        r.script@ == video_lines(parser@, stream_config.bitrate, stream_config.fps),
        r.source == 0,
        r.output == 2,
{
    let buffer: u32 = buffer_size(stream_config.bitrate);
    let mut script = make_source("vidsrc", stream_config.fps, buffer);
    make_queue(&mut script, 1, "source_queue", buffer);
    add_element(&mut script, parser, "parser");
    let all: Vec<usize> = vec![0, 1, 2];
    assert(all@ =~= seq![0usize, 1, 2]);
    insert_elements(&mut script, all);
    let chain: Vec<usize> = vec![0, 1, 2];
    assert(chain@ =~= seq![0usize, 1, 2]);
    link_elements(&mut script, chain);
    Linked { script, source: 0, output: 2 }
}

/// An H.264 pipeline, up to its parser.
pub fn pipe_h264(stream_config: &StreamConfig) -> (r: Linked)
    requires
        stream_config.fps > 0,
    ensures
        r.script@ == video_lines("h264parse"@, stream_config.bitrate, stream_config.fps),
        r.source == 0,
        r.output == 2,
{
    pipe_video("h264parse", stream_config)
}

/// An H.265 pipeline, up to its parser.
pub fn pipe_h265(stream_config: &StreamConfig) -> (r: Linked)
    requires
        stream_config.fps > 0,
    ensures
        r.script@ == video_lines("h265parse"@, stream_config.bitrate, stream_config.fps),
        r.source == 0,
        r.output == 2,
{
    pipe_video("h265parse", stream_config)
}

/// The lines of an AAC pipeline, up to its converter. Where silence can be played while no
/// audio comes (elements 4 and 5), the audio goes through the switch.
pub open spec fn aac_lines(fps: u32) -> Seq<LineView> {
    with_queue(
        source_lines("audsrc"@, fps, AUDIO_BUFFER_SIZE),
        1,
        "audqueue"@,
        AUDIO_BUFFER_SIZE,
    ).push(make("aacparse"@, "audparser"@)).push(
        always(
            StepView::MakeEither {
                kind: "faad"@,
                name: "auddecoder_faad"@,
                other_kind: "avdec_aac"@,
                other_name: "auddecoder_avdec_aac"@,
            },
        ),
    ).push(make("audiotestsrc"@, "audsilence"@)).push(
        assign(4, "wave"@, ValueView::Parsed("silence"@)),
    ).push(
        always(StepView::TryMake { kind: "fallbackswitch"@, name: "audfallbackswitch"@ }),
    ).push(
        LineView {
            when: When::Made(5),
            step: StepView::Assign {
                element: 5,
                property: "timeout"@,
                value: ValueView::ULong(SILENCE_TIMEOUT_NANOS),
            },
        },
    ).push(
        LineView {
            when: When::Made(5),
            step: StepView::Assign {
                element: 5,
                property: "immediate-fallback"@,
                value: ValueView::Flag(true),
            },
        },
    ).push(make("audioconvert"@, "audencoder"@)).push(insert(seq![0, 1, 2, 3, 6])).push(
        LineView { when: When::Made(5), step: StepView::Insert { elements: seq![4, 5] } },
    ).push(
        LineView {
            when: When::Made(5),
            step: StepView::Link { elements: seq![0, 1, 2, 3, 5, 6] },
        },
    ).push(
        LineView { when: When::Made(5), step: StepView::Link { elements: seq![4, 5] } },
    ).push(
        LineView { when: When::Missing(5), step: StepView::Link { elements: seq![0, 1, 2, 3, 6] } },
    )
}

/// An AAC pipeline, up to its converter.
pub fn pipe_aac(stream_config: &StreamConfig) -> (r: Linked)
    requires
        stream_config.fps > 0,
    ensures
        r.script@ == aac_lines(stream_config.fps),
        r.source == 0,
        r.output == 6,
{
    let mut script = make_source("audsrc", stream_config.fps, AUDIO_BUFFER_SIZE);
    make_queue(&mut script, 1, "audqueue", AUDIO_BUFFER_SIZE);
    add_element(&mut script, "aacparse", "audparser");
    script.step(
        Step::MakeEither {
            kind: "faad",
            name: "auddecoder_faad".to_owned(),
            other_kind: "avdec_aac",
            other_name: "auddecoder_avdec_aac".to_owned(),
        },
    );
    // The fallback
    add_element(&mut script, "audiotestsrc", "audsilence");
    assign_value(&mut script, 4, "wave", Value::Parsed("silence".to_owned()));
    script.step(
        Step::TryMake { kind: "fallbackswitch", name: "audfallbackswitch".to_owned() },
    );
    script.line(
        When::Made(5),
        Step::Assign {
            element: 5,
            property: "timeout",
            value: Value::ULong(SILENCE_TIMEOUT_NANOS),
        },
    );
    script.line(
        When::Made(5),
        Step::Assign { element: 5, property: "immediate-fallback", value: Value::Flag(true) },
    );
    add_element(&mut script, "audioconvert", "audencoder");
    let direct: Vec<usize> = vec![0, 1, 2, 3, 6];
    assert(direct@ =~= seq![0usize, 1, 2, 3, 6]);
    insert_elements(&mut script, direct);
    let fallback: Vec<usize> = vec![4, 5];
    assert(fallback@ =~= seq![4usize, 5]);
    script.line(When::Made(5), Step::Insert { elements: fallback });
    let switched: Vec<usize> = vec![0, 1, 2, 3, 5, 6];
    assert(switched@ =~= seq![0usize, 1, 2, 3, 5, 6]);
    script.line(When::Made(5), Step::Link { elements: switched });
    let silence: Vec<usize> = vec![4, 5];
    assert(silence@ =~= seq![4usize, 5]);
    script.line(When::Made(5), Step::Link { elements: silence });
    let unswitched: Vec<usize> = vec![0, 1, 2, 3, 6];
    assert(unswitched@ =~= seq![0usize, 1, 2, 3, 6]);
    script.line(When::Missing(5), Step::Link { elements: unswitched });
    Linked { script, source: 0, output: 6 }
}

/// The description of ADPCM audio, with blocks of so many bytes.
pub open spec fn adpcm_caps(block_size: u32) -> MediaCapsView {
    MediaCapsView {
        media_type: "audio/x-adpcm"@,
        fields: seq![
            ("layout"@, ValueView::Text("dvi"@)),
            ("block_align"@, ValueView::Int(block_size as i32)),
            ("channels"@, ValueView::Int(1)),
            ("rate"@, ValueView::Int(8000)),
        ],
    }
}

/// The lines of an ADPCM pipeline, up to its converter.
pub open spec fn adpcm_lines(block_size: u32, fps: u32) -> Seq<LineView> {
    with_queue(
        source_lines("audsrc"@, fps, AUDIO_BUFFER_SIZE).push(
            always(StepView::Describe { element: 0, caps: adpcm_caps(block_size) }),
        ),
        1,
        "audqueue"@,
        AUDIO_BUFFER_SIZE,
    ).push(make("decodebin"@, "auddecoder"@)).push(make("audioconvert"@, "audencoder"@)).push(
        insert(seq![0, 1, 2, 3]),
    ).push(link(seq![0, 1, 2])).push(
        always(StepView::LinkLater { from: 2, to: 3, pad: "sink"@ }),
    )
}

/// An ADPCM pipeline, up to its converter.
pub fn pipe_adpcm(block_size: u32, stream_config: &StreamConfig) -> (r: Linked)
    requires
        stream_config.fps > 0,
    ensures
        r.script@ == adpcm_lines(block_size, stream_config.fps),
        r.source == 0,
        r.output == 3,
{
    let mut script = make_source("audsrc", stream_config.fps, AUDIO_BUFFER_SIZE);
    let mut fields: Vec<CapsField> = Vec::new();
    fields.push(CapsField { name: "layout", value: Value::Text("dvi".to_owned()) });
    fields.push(CapsField { name: "block_align", value: Value::Int(block_size as i32) });
    fields.push(CapsField { name: "channels", value: Value::Int(1) });
    fields.push(CapsField { name: "rate", value: Value::Int(8000) });
    let caps = MediaCaps { media_type: "audio/x-adpcm", fields };
    assert(caps@.fields =~= adpcm_caps(block_size).fields);
    script.step(Step::Describe { element: 0, caps });
    make_queue(&mut script, 1, "audqueue", AUDIO_BUFFER_SIZE);
    add_element(&mut script, "decodebin", "auddecoder");
    add_element(&mut script, "audioconvert", "audencoder");
    let all: Vec<usize> = vec![0, 1, 2, 3];
    assert(all@ =~= seq![0usize, 1, 2, 3]);
    insert_elements(&mut script, all);
    let chain: Vec<usize> = vec![0, 1, 2];
    assert(chain@ =~= seq![0usize, 1, 2]);
    link_elements(&mut script, chain);
    script.step(Step::LinkLater { from: 2, to: 3, pad: "sink" });
    Linked { script, source: 0, output: 3 }
}

/// The lines of a pipeline that swallows its audio and plays silence, up to its converter.
pub open spec fn silence_lines(fps: u32) -> Seq<LineView> {
    with_queue(
        with_queue(
            source_lines("audsrc"@, fps, AUDIO_BUFFER_SIZE),
            1,
            "audsinkqueue"@,
            AUDIO_BUFFER_SIZE,
        ).push(make("fakesink"@, "silence_sink"@)).push(
            make("audiotestsrc"@, "audsilence"@),
        ).push(assign(3, "wave"@, ValueView::Parsed("silence"@))),
        4,
        "audsinkqueue"@,
        AUDIO_BUFFER_SIZE,
    ).push(make("audioconvert"@, "audencoder"@)).push(insert(seq![0, 1, 2, 3, 4, 5])).push(
        link(seq![0, 1, 2]),
    ).push(link(seq![3, 4, 5]))
}

/// A pipeline that swallows its audio and plays silence, up to its converter. Its two queues have
/// one name, so a bin that refuses repeated names does not take both.
pub fn pipe_silence(stream_config: &StreamConfig) -> (r: Linked)
    requires
        stream_config.fps > 0,
    ensures
        r.script@ == silence_lines(stream_config.fps),
        r.source == 0,
        r.output == 5,
{
    let mut script = make_source("audsrc", stream_config.fps, AUDIO_BUFFER_SIZE);
    make_queue(&mut script, 1, "audsinkqueue", AUDIO_BUFFER_SIZE);
    add_element(&mut script, "fakesink", "silence_sink");
    add_element(&mut script, "audiotestsrc", "audsilence");
    assign_value(&mut script, 3, "wave", Value::Parsed("silence".to_owned()));
    make_queue(&mut script, 4, "audsinkqueue", AUDIO_BUFFER_SIZE);
    add_element(&mut script, "audioconvert", "audencoder");
    let all: Vec<usize> = vec![0, 1, 2, 3, 4, 5];
    assert(all@ =~= seq![0usize, 1, 2, 3, 4, 5]);
    insert_elements(&mut script, all);
    let swallowed: Vec<usize> = vec![0, 1, 2];
    assert(swallowed@ =~= seq![0usize, 1, 2]);
    link_elements(&mut script, swallowed);
    let played: Vec<usize> = vec![3, 4, 5];
    assert(played@ =~= seq![3usize, 4, 5]);
    link_elements(&mut script, played);
    Linked { script, source: 0, output: 5 }
}

/// A plan for a bin that can be handed to the RTSP server.
#[derive(Debug)]
pub struct Plan {
    pub script: Script,
    /// The element that frames are pushed into, if there is one.
    pub source: Option<usize>,
}

/// Finishes a plan: what it gives becomes packets for the network.
fn payload(linked: Linked, payloader: usize, kind: &'static str, name: &str) -> (r: Plan)
    ensures
        r.script@ == with_payloader(linked.script@, linked.output, payloader, kind@, name@),
        r.source == Some(linked.source),
{
    let source: usize = linked.source;
    let output: usize = linked.output;
    let mut script = linked.script;
    add_element(&mut script, kind, name);
    let all: Vec<usize> = vec![payloader];
    assert(all@ =~= seq![payloader]);
    insert_elements(&mut script, all);
    let chain: Vec<usize> = vec![output, payloader];
    assert(chain@ =~= seq![output, payloader]);
    link_elements(&mut script, chain);
    Plan { script, source: Some(source) }
}

/// The lines of an H.264 pipeline.
pub open spec fn h264_plan(bitrate: u32, fps: u32) -> Seq<LineView> {
    with_payloader(video_lines("h264parse"@, bitrate, fps), 2, 3, "rtph264pay"@, "pay0"@)
}

/// The lines of an H.265 pipeline.
pub open spec fn h265_plan(bitrate: u32, fps: u32) -> Seq<LineView> {
    with_payloader(video_lines("h265parse"@, bitrate, fps), 2, 3, "rtph265pay"@, "pay0"@)
}

/// The lines of an AAC pipeline.
pub open spec fn aac_plan(fps: u32) -> Seq<LineView> {
    with_payloader(aac_lines(fps), 6, 7, "rtpL16pay"@, "pay1"@)
}

/// The lines of an ADPCM pipeline.
pub open spec fn adpcm_plan(block_size: u32, fps: u32) -> Seq<LineView> {
    with_payloader(adpcm_lines(block_size, fps), 3, 4, "rtpL16pay"@, "pay1"@)
}

/// An H.264 pipeline.
pub fn build_h264(stream_config: &StreamConfig) -> (r: Plan)
    requires
        stream_config.fps > 0,
    ensures
        r.script@ == h264_plan(stream_config.bitrate, stream_config.fps),
        r.source == Some(0usize),
{
    payload(pipe_h264(stream_config), 3, "rtph264pay", "pay0")
}

/// An H.265 pipeline.
pub fn build_h265(stream_config: &StreamConfig) -> (r: Plan)
    requires
        stream_config.fps > 0,
    ensures
        r.script@ == h265_plan(stream_config.bitrate, stream_config.fps),
        r.source == Some(0usize),
{
    payload(pipe_h265(stream_config), 3, "rtph265pay", "pay0")
}

/// An AAC pipeline.
pub fn build_aac(stream_config: &StreamConfig) -> (r: Plan)
    requires
        stream_config.fps > 0,
    ensures
        r.script@ == aac_plan(stream_config.fps),
        r.source == Some(0usize),
{
    payload(pipe_aac(stream_config), 7, "rtpL16pay", "pay1")
}

/// An ADPCM pipeline.
pub fn build_adpcm(block_size: u32, stream_config: &StreamConfig) -> (r: Plan)
    requires
        stream_config.fps > 0,
    ensures
        r.script@ == adpcm_plan(block_size, stream_config.fps),
        r.source == Some(0usize),
{
    payload(pipe_adpcm(block_size, stream_config), 4, "rtpL16pay", "pay1")
}

/// The description of the splash screen's video.
pub open spec fn splash_caps() -> MediaCapsView {
    MediaCapsView {
        media_type: "video/x-raw"@,
        fields: seq![
            ("format"@, ValueView::Text("YUY2"@)),
            ("width"@, ValueView::Int(896)),
            ("height"@, ValueView::Int(512)),
            ("framerate"@, ValueView::Fraction(25, 1)),
        ],
    }
}

/// The lines of a pipeline that shows a test pattern.
pub open spec fn splash_plan(pattern: Seq<char>) -> Seq<LineView> {
    with_queue(
        Seq::<LineView>::empty().push(make("videotestsrc"@, "testvidsrc"@)).push(
            assign(0, "pattern"@, ValueView::Parsed(pattern)),
        ).push(assign(0, "num-buffers"@, ValueView::Int(500))),
        1,
        "queue0"@,
        SPLASH_BUFFER_SIZE,
    ).push(make("textoverlay"@, "overlay"@)).push(
        assign(2, "text"@, ValueView::Text("Stream not Ready"@)),
    ).push(assign(2, "valignment"@, ValueView::Parsed("top"@))).push(
        assign(2, "halignment"@, ValueView::Parsed("left"@)),
    ).push(assign(2, "font-desc"@, ValueView::Text("Sans, 16"@))).push(
        make("jpegenc"@, "encoder"@),
    ).push(make("rtpjpegpay"@, "pay0"@)).push(insert(seq![0, 1, 2, 3, 4])).push(
        always(StepView::LinkFiltered { from: 0, to: 1, caps: splash_caps() }),
    ).push(link(seq![1, 2, 3, 4]))
}

/// A pipeline that shows a test pattern for a while: the splash screen of a stream that is not
/// ready.
pub fn build_unknown(pattern: &str) -> (r: Plan)
    ensures
        r.script@ == splash_plan(pattern@),
        r.source is None,
{
    let mut script = Script::new();
    add_element(&mut script, "videotestsrc", "testvidsrc");
    assign_value(&mut script, 0, "pattern", Value::Parsed(pattern.to_owned()));
    // Send buffers, and the end of the stream behind them
    assign_value(&mut script, 0, "num-buffers", Value::Int(500));
    make_queue(&mut script, 1, "queue0", SPLASH_BUFFER_SIZE);
    add_element(&mut script, "textoverlay", "overlay");
    assign_value(&mut script, 2, "text", Value::Text("Stream not Ready".to_owned()));
    assign_value(&mut script, 2, "valignment", Value::Parsed("top".to_owned()));
    assign_value(&mut script, 2, "halignment", Value::Parsed("left".to_owned()));
    assign_value(&mut script, 2, "font-desc", Value::Text("Sans, 16".to_owned()));
    add_element(&mut script, "jpegenc", "encoder");
    add_element(&mut script, "rtpjpegpay", "pay0");
    let all: Vec<usize> = vec![0, 1, 2, 3, 4];
    assert(all@ =~= seq![0usize, 1, 2, 3, 4]);
    insert_elements(&mut script, all);
    let mut fields: Vec<CapsField> = Vec::new();
    fields.push(CapsField { name: "format", value: Value::Text("YUY2".to_owned()) });
    fields.push(CapsField { name: "width", value: Value::Int(896) });
    fields.push(CapsField { name: "height", value: Value::Int(512) });
    fields.push(CapsField { name: "framerate", value: Value::Fraction(25, 1) });
    let caps = MediaCaps { media_type: "video/x-raw", fields };
    assert(caps@.fields =~= splash_caps().fields);
    script.step(Step::LinkFiltered { from: 0, to: 1, caps });
    let chain: Vec<usize> = vec![1, 2, 3, 4];
    assert(chain@ =~= seq![1usize, 2, 3, 4]);
    link_elements(&mut script, chain);
    Plan { script, source: None }
}

/// What a stream is served with that has no camera behind it: the splash screen, or nothing.
pub fn dummy_plan(use_splash: bool, pattern: &str) -> (r: Option<Plan>)
    ensures
        r is Some <==> use_splash,
        r matches Some(plan) ==> plan.script@ == splash_plan(pattern@) && plan.source is None,
{
    if !use_splash {
        None
    } else {
        Some(build_unknown(pattern))
    }
}

/// The lines of a bin of two queues, one behind the other.
pub open spec fn double_queue_lines(name: Seq<char>, size: u32) -> Seq<LineView> {
    Seq::<LineView>::empty().push(make("queue"@, "queue1_"@ + name)).push(
        assign(0, "max-size-bytes"@, ValueView::UInt(size)),
    ).push(assign(0, "max-size-buffers"@, ValueView::UInt(0))).push(
        assign(0, "max-size-time"@, ValueView::ULong(0)),
    ).push(make("queue2"@, "queue2_"@ + name)).push(
        assign(1, "max-size-bytes"@, ValueView::UInt((size * 2 / 3) as u32)),
    ).push(assign(0, "max-size-buffers"@, ValueView::UInt(0))).push(
        assign(0, "max-size-time"@, ValueView::ULong(0)),
    ).push(assign(1, "max-size-time"@, ValueView::ULong(QUEUE_TIME_NANOS))).push(
        assign(1, "use-buffering"@, ValueView::Flag(false)),
    ).push(insert(seq![0, 1])).push(link(seq![0, 1])).push(
        always(StepView::Expose { element: 0, pad: "sink"@ }),
    ).push(always(StepView::Expose { element: 1, pad: "src"@ }))
}

/// A bin of two queues, one behind the other. What comes in at the first one goes out at the
/// second one.
pub fn make_dbl_queue(name: &str, buffer_size: u32) -> (r: Script)
    requires
        buffer_size * 2 <= u32::MAX,
    ensures
        r@ == double_queue_lines(name@, buffer_size),
{
    let mut script = Script::new();
    let mut first_name = "queue1_".to_owned();
    first_name.append(name);
    add_element(&mut script, "queue", first_name.as_str());
    assign_value(&mut script, 0, "max-size-bytes", Value::UInt(buffer_size));
    assign_value(&mut script, 0, "max-size-buffers", Value::UInt(0));
    assign_value(&mut script, 0, "max-size-time", Value::ULong(0));
    let mut second_name = "queue2_".to_owned();
    second_name.append(name);
    add_element(&mut script, "queue2", second_name.as_str());
    assign_value(&mut script, 1, "max-size-bytes", Value::UInt(buffer_size * 2u32 / 3u32));
    assign_value(&mut script, 0, "max-size-buffers", Value::UInt(0));
    assign_value(&mut script, 0, "max-size-time", Value::ULong(0));
    assign_value(&mut script, 1, "max-size-time", Value::ULong(QUEUE_TIME_NANOS));
    assign_value(&mut script, 1, "use-buffering", Value::Flag(false));
    let both: Vec<usize> = vec![0, 1];
    assert(both@ =~= seq![0usize, 1]);
    insert_elements(&mut script, both);
    let chain: Vec<usize> = vec![0, 1];
    assert(chain@ =~= seq![0usize, 1]);
    link_elements(&mut script, chain);
    script.step(Step::Expose { element: 0, pad: "sink" });
    script.step(Step::Expose { element: 1, pad: "src" });
    script
}

/// The plans for one client. Both go into one bin, the video first.
#[derive(Debug)]
pub struct ClientPlan {
    pub video: Plan,
    pub audio: Option<Plan>,
}

/// Is there a plan for a client of this stream? Sources need a frame rate.
pub open spec fn can_serve(config: StreamConfigView) -> bool {
    config.vid_type is Some || config.aud_type is Some ==> config.fps > 0
}

/// Is there a plan for a client of this stream?
pub fn servable(stream_config: &StreamConfig) -> (r: bool)
    ensures
        r == can_serve(stream_config@),
{
    (stream_config.vid_type.is_none() && stream_config.aud_type.is_none()) || stream_config.fps > 0
}

/// The lines of the video plan for a client.
pub open spec fn video_plan(config: StreamConfigView, pattern: Seq<char>) -> Seq<LineView> {
    match config.vid_type {
        Some(VideoType::H264) => h264_plan(config.bitrate, config.fps),
        Some(VideoType::H265) => h265_plan(config.bitrate, config.fps),
        None => splash_plan(pattern),
    }
}

/// The lines of the audio plan for a client, if there is audio.
pub open spec fn audio_plan(config: StreamConfigView) -> Option<Seq<LineView>> {
    match config.aud_type {
        Some(AudioType::Aac) => Some(aac_plan(config.fps)),
        Some(AudioType::Adpcm(block_size)) => Some(adpcm_plan(block_size, config.fps)),
        None => None,
    }
}

/// The plans for a client of a stream: video in the encoding of the stream, or the splash
/// screen while that is unknown, and audio in the encoding of the stream, if it has any.
pub fn plan_client(stream_config: &StreamConfig, splash_pattern: &str) -> (r: ClientPlan)
    requires
        can_serve(stream_config@),
    ensures
        r.video.script@ == video_plan(stream_config@, splash_pattern@),
        r.video.source == (if stream_config@.vid_type is Some {
            Some(0usize)
        } else {
            None
        }),
        match r.audio {
            Some(plan) => audio_plan(stream_config@) == Some(plan.script@) && plan.source == Some(
                0usize,
            ),
            None => audio_plan(stream_config@) is None,
        },
{
    let video = match stream_config.vid_type {
        Some(VideoType::H264) => build_h264(stream_config),
        Some(VideoType::H265) => build_h265(stream_config),
        None => build_unknown(splash_pattern),
    };
    let audio = match stream_config.aud_type {
        Some(AudioType::Aac) => Some(build_aac(stream_config)),
        Some(AudioType::Adpcm(block_size)) => Some(build_adpcm(block_size, stream_config)),
        None => None,
    };
    ClientPlan { video, audio }
}

/// What tells the names of elements apart: their length, and two of their letters.
spec fn mark(name: Seq<char>) -> (nat, char, char) {
    (name.len(), name[0], name[3])
}

proof fn lemma_marks()
    ensures
        mark("vidsrc"@) == (6nat, 'v', 's'),
        mark("parser"@) == (6nat, 'p', 's'),
        mark("pay0"@) == (4nat, 'p', '0'),
        mark("testvidsrc"@) == (10nat, 't', 't'),
        mark("overlay"@) == (7nat, 'o', 'r'),
        mark("encoder"@) == (7nat, 'e', 'o'),
        mark("audsrc"@) == (6nat, 'a', 's'),
        mark("audparser"@) == (9nat, 'a', 'p'),
        mark("auddecoder_faad"@) == (15nat, 'a', 'd'),
        mark("auddecoder_avdec_aac"@) == (20nat, 'a', 'd'),
        mark("audsilence"@) == (10nat, 'a', 's'),
        mark("audfallbackswitch"@) == (17nat, 'a', 'f'),
        mark("audencoder"@) == (10nat, 'a', 'e'),
        mark("auddecoder"@) == (10nat, 'a', 'd'),
        mark("pay1"@) == (4nat, 'p', '1'),
        mark("queue1_"@ + "source_queue"@) == (19nat, 'q', 'u'),
        mark("queue1_"@ + "queue0"@) == (13nat, 'q', 'u'),
        mark("queue1_"@ + "audqueue"@) == (15nat, 'q', 'u'),
{
    reveal_strlit("vidsrc");
    reveal_strlit("parser");
    reveal_strlit("pay0");
    reveal_strlit("testvidsrc");
    reveal_strlit("overlay");
    reveal_strlit("encoder");
    reveal_strlit("audsrc");
    reveal_strlit("audparser");
    reveal_strlit("auddecoder_faad");
    reveal_strlit("auddecoder_avdec_aac");
    reveal_strlit("audsilence");
    reveal_strlit("audfallbackswitch");
    reveal_strlit("audencoder");
    reveal_strlit("auddecoder");
    reveal_strlit("pay1");
    reveal_strlit("queue1_");
    reveal_strlit("source_queue");
    reveal_strlit("queue0");
    reveal_strlit("audqueue");
}

proof fn lemma_video_is_sound(parser: Seq<char>, bitrate: u32, fps: u32, kind: Seq<char>)
    ensures
        is_sound(with_payloader(video_lines(parser, bitrate, fps), 2, 3, kind, "pay0"@)),
{
    broadcast use group_script_steps;

    lemma_marks();
}

proof fn lemma_aac_is_sound(fps: u32)
    ensures
        is_sound(aac_plan(fps)),
{
    broadcast use group_script_steps;

    lemma_marks();
}

proof fn lemma_adpcm_is_sound(block_size: u32, fps: u32)
    ensures
        is_sound(adpcm_plan(block_size, fps)),
{
    broadcast use group_script_steps;

    lemma_marks();
}

proof fn lemma_splash_is_sound(pattern: Seq<char>)
    ensures
        is_sound(splash_plan(pattern)),
{
    broadcast use group_script_steps;

    lemma_marks();
}

/// The plans for a client can be carried out in one empty bin, from their first line to their
/// last: they only deal with elements that exist by then, whether or not the optional ones could
/// be made, they only link elements that are in the bin, and no two elements have one name, not
/// even where one is for video and the other for audio.
pub proof fn law_client_plans_are_sound(config: StreamConfigView, pattern: Seq<char>)
    ensures
        is_sound(video_plan(config, pattern)),
        audio_plan(config) matches Some(lines) ==> is_sound(lines) && forall|name: Seq<char>|
            !(#[trigger] is_taken(video_plan(config, pattern), name) && is_taken(lines, name)),
{
    lemma_video_is_sound("h264parse"@, config.bitrate, config.fps, "rtph264pay"@);
    lemma_video_is_sound("h265parse"@, config.bitrate, config.fps, "rtph265pay"@);
    lemma_splash_is_sound(pattern);
    lemma_aac_is_sound(config.fps);
    match config.aud_type {
        Some(AudioType::Adpcm(block_size)) => lemma_adpcm_is_sound(block_size, config.fps),
        _ => {},
    }
    lemma_tracks_share_no_name(config, pattern);
}

proof fn lemma_tracks_share_no_name(config: StreamConfigView, pattern: Seq<char>)
    ensures
        audio_plan(config) matches Some(lines) ==> forall|name: Seq<char>|
            !(#[trigger] is_taken(video_plan(config, pattern), name) && is_taken(lines, name)),
{
    broadcast use group_script_steps;

    lemma_marks();
}

/// The plan for a double queue can be carried out as well.
pub proof fn law_double_queue_is_sound(name: Seq<char>, size: u32)
    ensures
        is_sound(double_queue_lines(name, size)),
{
    broadcast use group_script_steps;

    reveal_strlit("queue1_");
    reveal_strlit("queue2_");
    assert(("queue1_"@ + name)[5] != ("queue2_"@ + name)[5]);
}

/// Does a plan end by linking into the element of this name?
pub open spec fn ends_in(lines: Seq<LineView>, name: Seq<char>) -> bool {
    lines.len() > 0 && (lines.last() matches LineView { when: When::Always, step: StepView::Link {
        elements,
    } } && elements.len() > 0 && made_as(lines, elements.last(), name))
}

/// What a client's plans give ends up in the elements that the RTSP server looks for: `pay0`
/// for video, and `pay1` for audio.
pub proof fn law_client_plans_end_in_a_payloader(config: StreamConfigView, pattern: Seq<char>)
    ensures
        ends_in(video_plan(config, pattern), "pay0"@),
        audio_plan(config) matches Some(lines) ==> ends_in(lines, "pay1"@),
{
    broadcast use group_script_steps;

}

/// The kinds of the elements that a plan makes, in their order. Of two kinds it is the first.
pub open spec fn kinds_made(lines: Seq<LineView>) -> Seq<Seq<char>>
    decreases lines.len(),
{
    if lines.len() == 0 {
        Seq::empty()
    } else {
        let before = kinds_made(lines.drop_last());
        match lines.last().step {
            StepView::Make { kind, .. } => before.push(kind),
            StepView::MakeEither { kind, .. } => before.push(kind),
            StepView::TryMake { kind, .. } => before.push(kind),
            _ => before,
        }
    }
}

/// Does one element stand right behind another in a chain?
pub open spec fn next_to(chain: Seq<usize>, from: usize, to: usize) -> bool
    decreases chain.len(),
{
    chain.len() >= 2 && (next_to(chain.drop_last(), from, to) || (chain.drop_last().last() == from
        && chain.last() == to))
}

/// Does a step link one element to another?
pub open spec fn joins(step: StepView, from: usize, to: usize) -> bool {
    match step {
        StepView::Link { elements } => next_to(elements, from, to),
        StepView::LinkFiltered { from: f, to: t, .. } => f == from && t == to,
        StepView::LinkLater { from: f, to: t, .. } => f == from && t == to,
        _ => false,
    }
}

/// Does media flow from one element to another, given which elements could be made?
pub open spec fn flows(
    lines: Seq<LineView>,
    made: spec_fn(usize) -> bool,
    from: usize,
    to: usize,
) -> bool
    decreases lines.len(),
{
    lines.len() > 0 && (flows(lines.drop_last(), made, from, to) || (holds(lines.last().when, made)
        && joins(lines.last().step, from, to)))
}

/// The value that a property of an element is set to in the end, given which elements could be
/// made.
pub open spec fn property_of(
    lines: Seq<LineView>,
    made: spec_fn(usize) -> bool,
    element: usize,
    property: Seq<char>,
) -> Option<ValueView>
    decreases lines.len(),
{
    if lines.len() == 0 {
        None
    } else {
        let before = property_of(lines.drop_last(), made, element, property);
        match lines.last().step {
            StepView::Assign { element: e, property: p, value } => if holds(lines.last().when, made)
                && e == element && p == property {
                Some(value)
            } else {
                before
            },
            _ => before,
        }
    }
}

/// The settings that an element is set up with as a source, if it is.
pub open spec fn settings_of(lines: Seq<LineView>, element: usize) -> Option<SourceSettings>
    decreases lines.len(),
{
    if lines.len() == 0 {
        None
    } else {
        match lines.last().step {
            StepView::SetUpSource { element: e, settings } if e == element => Some(settings),
            _ => settings_of(lines.drop_last(), element),
        }
    }
}

/// The media that a source is said to give, if any is said.
pub open spec fn caps_of(lines: Seq<LineView>, element: usize) -> Option<MediaCapsView>
    decreases lines.len(),
{
    if lines.len() == 0 {
        None
    } else {
        match lines.last().step {
            StepView::Describe { element: e, caps } if e == element => Some(caps),
            _ => caps_of(lines.drop_last(), element),
        }
    }
}

broadcast proof fn lemma_kinds_made_push(lines: Seq<LineView>, line: LineView)
    ensures
        #[trigger] kinds_made(lines.push(line)) == match line.step {
            StepView::Make { kind, .. } => kinds_made(lines).push(kind),
            StepView::MakeEither { kind, .. } => kinds_made(lines).push(kind),
            StepView::TryMake { kind, .. } => kinds_made(lines).push(kind),
            _ => kinds_made(lines),
        },
{
    assert(lines.push(line).drop_last() =~= lines);
}

broadcast proof fn lemma_flows_push(
    lines: Seq<LineView>,
    line: LineView,
    made: spec_fn(usize) -> bool,
    from: usize,
    to: usize,
)
    ensures
        #[trigger] flows(lines.push(line), made, from, to) == (flows(lines, made, from, to) || (
        holds(line.when, made) && joins(line.step, from, to))),
{
    assert(lines.push(line).drop_last() =~= lines);
}

broadcast proof fn lemma_property_of_push(
    lines: Seq<LineView>,
    line: LineView,
    made: spec_fn(usize) -> bool,
    element: usize,
    property: Seq<char>,
)
    ensures
        #[trigger] property_of(lines.push(line), made, element, property) == match line.step {
            StepView::Assign { element: e, property: p, value } => if holds(line.when, made) && e
                == element && p == property {
                Some(value)
            } else {
                property_of(lines, made, element, property)
            },
            _ => property_of(lines, made, element, property),
        },
{
    assert(lines.push(line).drop_last() =~= lines);
}

broadcast proof fn lemma_settings_of_push(lines: Seq<LineView>, line: LineView, element: usize)
    ensures
        #[trigger] settings_of(lines.push(line), element) == match line.step {
            StepView::SetUpSource { element: e, settings } if e == element => Some(settings),
            _ => settings_of(lines, element),
        },
{
    assert(lines.push(line).drop_last() =~= lines);
}

broadcast proof fn lemma_caps_of_push(lines: Seq<LineView>, line: LineView, element: usize)
    ensures
        #[trigger] caps_of(lines.push(line), element) == match line.step {
            StepView::Describe { element: e, caps } if e == element => Some(caps),
            _ => caps_of(lines, element),
        },
{
    assert(lines.push(line).drop_last() =~= lines);
}

broadcast group group_plan_meaning {
    lemma_kinds_made_push,
    lemma_flows_push,
    lemma_property_of_push,
    lemma_settings_of_push,
    lemma_caps_of_push,
}

/// What tells the names of properties apart: their length and their first letter.
spec fn property_mark(property: Seq<char>) -> (nat, char) {
    (property.len(), property[0])
}

proof fn lemma_property_marks()
    ensures
        property_mark("max-size-bytes"@) == (14nat, 'm'),
        property_mark("max-size-buffers"@) == (16nat, 'm'),
        property_mark("max-size-time"@) == (13nat, 'm'),
        property_mark("use-buffering"@) == (13nat, 'u'),
        property_mark("pattern"@) == (7nat, 'p'),
        property_mark("num-buffers"@) == (11nat, 'n'),
        property_mark("text"@) == (4nat, 't'),
        property_mark("valignment"@) == (10nat, 'v'),
        property_mark("halignment"@) == (10nat, 'h'),
        property_mark("font-desc"@) == (9nat, 'f'),
        property_mark("wave"@) == (4nat, 'w'),
        property_mark("timeout"@) == (7nat, 't'),
        property_mark("immediate-fallback"@) == (18nat, 'i'),
{
    reveal_strlit("max-size-bytes");
    reveal_strlit("max-size-buffers");
    reveal_strlit("max-size-time");
    reveal_strlit("use-buffering");
    reveal_strlit("pattern");
    reveal_strlit("num-buffers");
    reveal_strlit("text");
    reveal_strlit("valignment");
    reveal_strlit("halignment");
    reveal_strlit("font-desc");
    reveal_strlit("wave");
    reveal_strlit("timeout");
    reveal_strlit("immediate-fallback");
}

/// A buffer holds what comes in a tenth of a second, in whole bytes, or 4 kB where that is more.
pub proof fn law_a_buffer_holds_a_tenth_of_a_second(bitrate: u32)
    ensures
        video_buffer(bitrate) >= 4 * 1024,
        80 * (video_buffer(bitrate) + 1) > bitrate,
        video_buffer(bitrate) > 4 * 1024 ==> 80 * video_buffer(bitrate) <= bitrate,
{
}

/// Is this element a source of pushed frames that takes up to so many bytes, in a stream of so many
/// frames per second? It is not live, never blocks, sends no signals, gives no times of its own and
/// streams without end. It waits for as many whole milliseconds as one frame takes.
pub open spec fn is_pushed_into(
    lines: Seq<LineView>,
    element: usize,
    fps: u32,
    max_bytes: u32,
) -> bool {
    settings_of(lines, element) matches Some(settings) && {
        &&& !settings.is_live
        &&& !settings.block
        &&& !settings.emit_signals
        &&& !settings.do_timestamp
        &&& settings.stream_type is Stream
        &&& settings.max_bytes == max_bytes
        &&& fps > 0 ==> settings.min_latency == 1000int / fps as int
    }
}

/// Is this element a queue of up to so many bytes, any number of buffers, and five seconds?
pub open spec fn is_bounded(
    lines: Seq<LineView>,
    made: spec_fn(usize) -> bool,
    element: usize,
    size: u32,
) -> bool {
    &&& property_of(lines, made, element, "max-size-bytes"@) == Some(ValueView::UInt(size))
    &&& property_of(lines, made, element, "max-size-buffers"@) == Some(ValueView::UInt(0))
    &&& property_of(lines, made, element, "max-size-time"@) == Some(ValueView::ULong(5_000_000_000))
}

/// One frame takes a second at the most.
proof fn lemma_latency(fps: u32)
    ensures
        fps > 0 ==> 0 <= 1000int / fps as int <= 1000,
{
    if fps > 0 {
        let f = fps as int;
        assert(0 <= 1000int / f <= 1000) by (nonlinear_arith)
            requires
                f >= 1,
        ;
    }
}

/// The pipeline for an encoding of video that is known: frames are pushed into the first element,
/// and go through a queue and the parser of the encoding into its payloader.
pub open spec fn shows_the_camera(
    lines: Seq<LineView>,
    made: spec_fn(usize) -> bool,
    parser: Seq<char>,
    payloader: Seq<char>,
    bitrate: u32,
    fps: u32,
) -> bool {
    &&& kinds_made(lines) == seq!["appsrc"@, "queue"@, parser, payloader]
    &&& flows(lines, made, 0, 1)
    &&& flows(lines, made, 1, 2)
    &&& flows(lines, made, 2, 3)
    &&& is_pushed_into(lines, 0, fps, video_buffer(bitrate))
    &&& is_bounded(lines, made, 1, video_buffer(bitrate))
}

/// The camera's video is shown wherever its encoding is known, whether or not there is audio and
/// whatever else is known, and the splash screen is shown only where it is not.
pub proof fn law_the_camera_is_shown_where_its_encoding_is_known(
    config: StreamConfigView,
    pattern: Seq<char>,
    made: spec_fn(usize) -> bool,
)
    ensures
        config.vid_type == Some(VideoType::H264) ==> shows_the_camera(
            video_plan(config, pattern),
            made,
            "h264parse"@,
            "rtph264pay"@,
            config.bitrate,
            config.fps,
        ),
        config.vid_type == Some(VideoType::H265) ==> shows_the_camera(
            video_plan(config, pattern),
            made,
            "h265parse"@,
            "rtph265pay"@,
            config.bitrate,
            config.fps,
        ),
        config.vid_type is None ==> {
            let lines = video_plan(config, pattern);
            &&& kinds_made(lines) == seq![
                "videotestsrc"@,
                "queue"@,
                "textoverlay"@,
                "jpegenc"@,
                "rtpjpegpay"@,
            ]
            &&& flows(lines, made, 0, 1)
            &&& flows(lines, made, 1, 2)
            &&& flows(lines, made, 2, 3)
            &&& flows(lines, made, 3, 4)
            &&& is_bounded(lines, made, 1, 4_194_304)
            &&& property_of(lines, made, 0, "pattern"@) == Some(ValueView::Parsed(pattern))
            &&& property_of(lines, made, 0, "num-buffers"@) == Some(ValueView::Int(500))
            &&& property_of(lines, made, 2, "text"@) == Some(ValueView::Text("Stream not Ready"@))
        },
{
    broadcast use {group_script_steps, group_plan_meaning};

    lemma_latency(config.fps);
    lemma_property_marks();
    reveal_with_fuel(next_to, 5);
    match config.vid_type {
        Some(VideoType::H264) => {
            assert(kinds_made(video_plan(config, pattern)) =~= seq![
                "appsrc"@,
                "queue"@,
                "h264parse"@,
                "rtph264pay"@,
            ]);
        },
        Some(VideoType::H265) => {
            assert(kinds_made(video_plan(config, pattern)) =~= seq![
                "appsrc"@,
                "queue"@,
                "h265parse"@,
                "rtph265pay"@,
            ]);
        },
        None => {
            assert(kinds_made(video_plan(config, pattern)) =~= seq![
                "videotestsrc"@,
                "queue"@,
                "textoverlay"@,
                "jpegenc"@,
                "rtpjpegpay"@,
            ]);
        },
    }
}

/// A camera's audio is played wherever its encoding is known, whether or not there is video. AAC
/// goes through its parser and a decoder. While none comes, silence is played, where there is a
/// switch for that.
pub proof fn law_aac_is_decoded_with_silence_to_fall_back_on(
    config: StreamConfigView,
    made: spec_fn(usize) -> bool,
)
    requires
        config.aud_type == Some(AudioType::Aac),
    ensures
        audio_plan(config) matches Some(lines) && {
            &&& kinds_made(lines) == seq![
                "appsrc"@,
                "queue"@,
                "aacparse"@,
                "faad"@,
                "audiotestsrc"@,
                "fallbackswitch"@,
                "audioconvert"@,
                "rtpL16pay"@,
            ]
            &&& is_pushed_into(lines, 0, config.fps, 724_992)
            &&& is_bounded(lines, made, 1, 724_992)
            &&& property_of(lines, made, 4, "wave"@) == Some(ValueView::Parsed("silence"@))
            &&& flows(lines, made, 0, 1)
            &&& flows(lines, made, 1, 2)
            &&& flows(lines, made, 2, 3)
            &&& made(5) ==> {
                &&& flows(lines, made, 3, 5)
                &&& flows(lines, made, 4, 5)
                &&& flows(lines, made, 5, 6)
                &&& !flows(lines, made, 3, 6)
                &&& property_of(lines, made, 5, "timeout"@) == Some(
                    ValueView::ULong(3_000_000_000),
                )
                &&& property_of(lines, made, 5, "immediate-fallback"@) == Some(
                    ValueView::Flag(true),
                )
            }
            &&& !made(5) ==> {
                &&& flows(lines, made, 3, 6)
                &&& !flows(lines, made, 3, 5)
                &&& !flows(lines, made, 4, 5)
            }
            &&& flows(lines, made, 6, 7)
        },
{
    broadcast use {group_script_steps, group_plan_meaning};

    lemma_latency(config.fps);
    lemma_property_marks();
    reveal_with_fuel(next_to, 7);
    assert(kinds_made(aac_plan(config.fps)) =~= seq![
        "appsrc"@,
        "queue"@,
        "aacparse"@,
        "faad"@,
        "audiotestsrc"@,
        "fallbackswitch"@,
        "audioconvert"@,
        "rtpL16pay"@,
    ]);
}

/// ADPCM is decoded as blocks of the size that its packets have, at 8000 samples a second in one
/// channel.
pub proof fn law_adpcm_is_decoded_in_its_blocks(
    config: StreamConfigView,
    block_size: u32,
    made: spec_fn(usize) -> bool,
)
    requires
        config.aud_type == Some(AudioType::Adpcm(block_size)),
    ensures
        audio_plan(config) matches Some(lines) && {
            &&& kinds_made(lines) == seq![
                "appsrc"@,
                "queue"@,
                "decodebin"@,
                "audioconvert"@,
                "rtpL16pay"@,
            ]
            &&& is_pushed_into(lines, 0, config.fps, 724_992)
            &&& is_bounded(lines, made, 1, 724_992)
            &&& flows(lines, made, 0, 1)
            &&& flows(lines, made, 1, 2)
            &&& flows(lines, made, 2, 3)
            &&& flows(lines, made, 3, 4)
            &&& caps_of(lines, 0) matches Some(caps) && {
                &&& caps.media_type == "audio/x-adpcm"@
                &&& caps.fields.len() == 4
                &&& caps.fields[0] == ("layout"@, ValueView::Text("dvi"@))
                &&& caps.fields[1] == ("block_align"@, ValueView::Int(block_size as i32))
                &&& caps.fields[2] == ("channels"@, ValueView::Int(1))
                &&& caps.fields[3] == ("rate"@, ValueView::Int(8000))
            }
        },
{
    broadcast use {group_script_steps, group_plan_meaning};

    lemma_latency(config.fps);
    lemma_property_marks();
    reveal_with_fuel(next_to, 5);
    assert(kinds_made(adpcm_plan(block_size, config.fps)) =~= seq![
        "appsrc"@,
        "queue"@,
        "decodebin"@,
        "audioconvert"@,
        "rtpL16pay"@,
    ]);
}

/// The plans of a client follow from what they show and play, and from nothing else that is known:
/// video from its encoding, the bitrate and the frame rate, or else from the test pattern alone,
/// and audio from its encoding and the frame rate. There is a plan for audio exactly where its
/// encoding is known.
pub proof fn law_plans_follow_from_the_encodings_and_the_rates(
    config: StreamConfigView,
    other: StreamConfigView,
    pattern: Seq<char>,
    other_pattern: Seq<char>,
)
    requires
        config.fps == other.fps,
        config.bitrate == other.bitrate,
    ensures
        config.vid_type == other.vid_type && config.vid_type is Some ==> video_plan(config, pattern)
            == video_plan(other, other_pattern),
        config.vid_type is None && other.vid_type is None ==> video_plan(config, pattern)
            == video_plan(other, pattern),
        config.aud_type == other.aud_type ==> audio_plan(config) == audio_plan(other),
        audio_plan(config) is Some <==> config.aud_type is Some,
{
}

/// Are two plans the same, line by line, but for these places?
pub open spec fn same_but_at(
    lines: Seq<LineView>,
    others: Seq<LineView>,
    places: Set<int>,
) -> bool {
    &&& lines.len() == others.len()
    &&& forall|i: int|
        0 <= i < lines.len() && !places.contains(i) ==> #[trigger] lines[i] == others[i]
}

/// The bitrate and the frame rate of a stream only show in the settings of the source and in the
/// size of the queue. The two encodings of video only differ in the parser and in the payloader.
pub proof fn law_rates_only_show_in_the_source_and_its_queue(
    bitrate: u32,
    other_bitrate: u32,
    fps: u32,
    other_fps: u32,
)
    ensures
        same_but_at(
            h264_plan(bitrate, fps),
            h264_plan(other_bitrate, other_fps),
            set![1int, 3int],
        ),
        same_but_at(
            h265_plan(bitrate, fps),
            h265_plan(other_bitrate, other_fps),
            set![1int, 3int],
        ),
        same_but_at(h264_plan(bitrate, fps), h265_plan(bitrate, fps), set![7int, 10int]),
        same_but_at(aac_plan(fps), aac_plan(other_fps), set![1int]),
        same_but_at(silence_lines(fps), silence_lines(other_fps), set![1int]),
        is_pushed_into(silence_lines(fps), 0, fps, 724_992),
{
    broadcast use group_plan_meaning;

    lemma_latency(fps);
}

/// The block size of ADPCM only shows in what the source is said to give, the test pattern only in
/// the element that shows it, and the name and the size of a double queue only in its two queues.
pub proof fn law_parameters_only_show_in_their_place(
    block_size: u32,
    other_block_size: u32,
    fps: u32,
    other_fps: u32,
    text: Seq<char>,
    other_text: Seq<char>,
    size: u32,
    other_size: u32,
)
    ensures
        same_but_at(
            adpcm_plan(block_size, fps),
            adpcm_plan(other_block_size, other_fps),
            set![1int, 2int],
        ),
        same_but_at(splash_plan(text), splash_plan(other_text), set![1int]),
        same_but_at(
            double_queue_lines(text, size),
            double_queue_lines(other_text, other_size),
            set![0int, 1int, 4int, 5int],
        ),
{
}

/// A double queue is a queue and one of another kind behind it, both named after the whole. The
/// first one holds as many bytes as asked for, and the second one two thirds of that, in whole
/// bytes. What goes in at the first one comes out at the second one.
pub proof fn law_a_double_queue_holds_what_is_asked_for(
    name: Seq<char>,
    size: u32,
    made: spec_fn(usize) -> bool,
)
    requires
        size * 2 <= 0xFFFF_FFFF,
    ensures
        ({
            let lines = double_queue_lines(name, size);
            &&& kinds_made(lines) == seq!["queue"@, "queue2"@]
            &&& made_as(lines, 0, "queue1_"@ + name)
            &&& made_as(lines, 1, "queue2_"@ + name)
            &&& flows(lines, made, 0, 1)
            &&& property_of(lines, made, 0, "max-size-bytes"@) == Some(ValueView::UInt(size))
            &&& property_of(lines, made, 1, "max-size-bytes"@) matches Some(ValueView::UInt(part))
                && 3 * part <= 2 * size < 3 * (part + 1)
            &&& property_of(lines, made, 1, "max-size-time"@) == Some(
                ValueView::ULong(5_000_000_000),
            )
        }),
{
    broadcast use {group_script_steps, group_plan_meaning};

    lemma_property_marks();
    assert(makes(Seq::<LineView>::empty()) == 0);
}

/// A queue is added behind what a plan has, without changing that, and what is added does not
/// depend on it. It is bounded by the size that is asked for, whatever that is.
pub proof fn law_a_queue_is_added_behind_the_rest(
    lines: Seq<LineView>,
    element: usize,
    name: Seq<char>,
    size: u32,
    made: spec_fn(usize) -> bool,
)
    ensures
        with_queue(lines, element, name, size) == lines + with_queue(
            Seq::empty(),
            element,
            name,
            size,
        ),
        kinds_made(with_queue(lines, element, name, size)) == kinds_made(lines).push("queue"@),
        with_queue(lines, element, name, size).len() == lines.len() + 5,
        with_queue(lines, element, name, size)[lines.len() as int].step.makes_named(
            "queue1_"@ + name,
        ),
        is_bounded(with_queue(lines, element, name, size), made, element, size),
{
    broadcast use {group_script_steps, group_plan_meaning};

    lemma_property_marks();
    assert(with_queue(lines, element, name, size) =~= lines + with_queue(
        Seq::empty(),
        element,
        name,
        size,
    ));
}

/// A finished pipeline is the unfinished one with a payloader behind it: everything but its last
/// three lines is the plan up to the element that its media comes out of.
pub proof fn law_finishing_only_adds_a_payloader(block_size: u32, bitrate: u32, fps: u32)
    ensures
        h264_plan(bitrate, fps).len() == video_lines("h264parse"@, bitrate, fps).len() + 3,
        h265_plan(bitrate, fps).len() == video_lines("h265parse"@, bitrate, fps).len() + 3,
        aac_plan(fps).len() == aac_lines(fps).len() + 3,
        adpcm_plan(block_size, fps).len() == adpcm_lines(block_size, fps).len() + 3,
        h264_plan(bitrate, fps).take(h264_plan(bitrate, fps).len() - 3) == video_lines(
            "h264parse"@,
            bitrate,
            fps,
        ),
        h265_plan(bitrate, fps).take(h265_plan(bitrate, fps).len() - 3) == video_lines(
            "h265parse"@,
            bitrate,
            fps,
        ),
        aac_plan(fps).take(aac_plan(fps).len() - 3) == aac_lines(fps),
        adpcm_plan(block_size, fps).take(adpcm_plan(block_size, fps).len() - 3) == adpcm_lines(
            block_size,
            fps,
        ),
{
}

/// A stream can be served where it has a frame rate, and without one exactly where neither
/// encoding is known.
pub proof fn law_sources_need_a_frame_rate(config: StreamConfigView)
    ensures
        config.fps >= 1 ==> can_serve(config),
        config.fps == 0 ==> (can_serve(config) <==> config.vid_type is None
            && config.aud_type is None),
{
}

} // verus!
