use rtsp_factory::plugins::{missing_plugin, plugin_of};

#[test]
fn each_kind_of_element_names_its_plugin() {
    let expected = [
        ("appsrc", "app (gst-plugins-base)"),
        ("audioconvert", "audioconvert (gst-plugins-base)"),
        ("adpcmdec", "Required for audio"),
        ("h264parse", "videoparsersbad (gst-plugins-bad)"),
        ("h265parse", "videoparsersbad (gst-plugins-bad)"),
        ("rtph264pay", "rtp (gst-plugins-good)"),
        ("rtph265pay", "rtp (gst-plugins-good)"),
        ("rtpjitterbuffer", "rtp (gst-plugins-good)"),
        ("aacparse", "audioparsers (gst-plugins-good)"),
        ("rtpL16pay", "rtp (gst-plugins-good)"),
        ("x264enc", "x264 (gst-plugins-ugly)"),
        ("x265enc", "x265 (gst-plugins-bad)"),
        ("avdec_h264", "libav (gst-libav)"),
        ("avdec_h265", "libav (gst-libav)"),
        ("videotestsrc", "videotestsrc (gst-plugins-base)"),
        ("imagefreeze", "imagefreeze (gst-plugins-good)"),
        ("audiotestsrc", "audiotestsrc (gst-plugins-base)"),
        ("decodebin", "playback (gst-plugins-good)"),
        ("faad", "Unknown"),
        ("", "Unknown"),
        ("Appsrc", "Unknown"),
    ];
    for (kind, plugin) in expected {
        assert_eq!(plugin_of(kind), plugin);
    }
}

#[test]
fn a_missing_plugin_is_reported() {
    assert_eq!(
        missing_plugin("h264parse"),
        "Missing required gstreamer plugin `videoparsersbad (gst-plugins-bad)` for `h264parse` element"
    );
    assert_eq!(
        missing_plugin("queue"),
        "Missing required gstreamer plugin `Unknown` for `queue` element"
    );
}
