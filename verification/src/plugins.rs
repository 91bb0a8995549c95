//! Which plugin an element comes from, to say so where it cannot be made.

use vstd::prelude::*;
use vstd::string::StringExecFns;

verus! {

/// The plugin that a kind of element comes from.
pub open spec fn plugin(kind: Seq<char>) -> Seq<char> {
    if kind == "appsrc"@ {
        "app (gst-plugins-base)"@
    } else if kind == "audioconvert"@ {
        "audioconvert (gst-plugins-base)"@
    } else if kind == "adpcmdec"@ {
        "Required for audio"@
    } else if kind == "h264parse"@ || kind == "h265parse"@ {
        "videoparsersbad (gst-plugins-bad)"@
    } else if kind == "rtph264pay"@ || kind == "rtph265pay"@ || kind == "rtpjitterbuffer"@ || kind
        == "rtpL16pay"@ {
        "rtp (gst-plugins-good)"@
    } else if kind == "aacparse"@ {
        "audioparsers (gst-plugins-good)"@
    } else if kind == "x264enc"@ {
        "x264 (gst-plugins-ugly)"@
    } else if kind == "x265enc"@ {
        "x265 (gst-plugins-bad)"@
    } else if kind == "avdec_h264"@ || kind == "avdec_h265"@ {
        "libav (gst-libav)"@
    } else if kind == "videotestsrc"@ {
        "videotestsrc (gst-plugins-base)"@
    } else if kind == "imagefreeze"@ {
        "imagefreeze (gst-plugins-good)"@
    } else if kind == "audiotestsrc"@ {
        "audiotestsrc (gst-plugins-base)"@
    } else if kind == "decodebin"@ {
        "playback (gst-plugins-good)"@
    } else {
        "Unknown"@
    }
}

/// The text that is reported where an element of a kind cannot be made.
pub open spec fn missing_text(kind: Seq<char>) -> Seq<char> {
    "Missing required gstreamer plugin `"@ + plugin(kind) + "` for `"@ + kind + "` element"@
}

/// Are two texts the same?
fn same_text(a: &str, b: &str) -> (r: bool)
    ensures
        r == (a@ == b@),
{
    a.to_owned() == b.to_owned()
}

/// The plugin that a kind of element comes from.
pub fn plugin_of(kind: &str) -> (r: &'static str)
    ensures
        r@ == plugin(kind@),
{
    if same_text(kind, "appsrc") {
        "app (gst-plugins-base)"
    } else if same_text(kind, "audioconvert") {
        "audioconvert (gst-plugins-base)"
    } else if same_text(kind, "adpcmdec") {
        "Required for audio"
    } else if same_text(kind, "h264parse") || same_text(kind, "h265parse") {
        "videoparsersbad (gst-plugins-bad)"
    } else if same_text(kind, "rtph264pay") || same_text(kind, "rtph265pay") || same_text(
        kind,
        "rtpjitterbuffer",
    ) || same_text(kind, "rtpL16pay") {
        "rtp (gst-plugins-good)"
    } else if same_text(kind, "aacparse") {
        "audioparsers (gst-plugins-good)"
    } else if same_text(kind, "x264enc") {
        "x264 (gst-plugins-ugly)"
    } else if same_text(kind, "x265enc") {
        "x265 (gst-plugins-bad)"
    } else if same_text(kind, "avdec_h264") || same_text(kind, "avdec_h265") {
        "libav (gst-libav)"
    } else if same_text(kind, "videotestsrc") {
        "videotestsrc (gst-plugins-base)"
    } else if same_text(kind, "imagefreeze") {
        "imagefreeze (gst-plugins-good)"
    } else if same_text(kind, "audiotestsrc") {
        "audiotestsrc (gst-plugins-base)"
    } else if same_text(kind, "decodebin") {
        "playback (gst-plugins-good)"
    } else {
        "Unknown"
    }
}

/// The text that is reported where an element of a kind cannot be made.
pub fn missing_plugin(kind: &str) -> (r: String)
    ensures
        r@ == missing_text(kind@),
{
    let mut text = "Missing required gstreamer plugin `".to_owned();
    text.append(plugin_of(kind));
    text.append("` for `");
    text.append(kind);
    text.append("` element");
    text
}

/// The kinds of element whose plugin is known, each with its plugin.
pub open spec fn known_plugins() -> Seq<(Seq<char>, Seq<char>)> {
    seq![
        ("appsrc"@, "app (gst-plugins-base)"@),
        ("audioconvert"@, "audioconvert (gst-plugins-base)"@),
        ("adpcmdec"@, "Required for audio"@),
        ("h264parse"@, "videoparsersbad (gst-plugins-bad)"@),
        ("h265parse"@, "videoparsersbad (gst-plugins-bad)"@),
        ("rtph264pay"@, "rtp (gst-plugins-good)"@),
        ("rtph265pay"@, "rtp (gst-plugins-good)"@),
        ("rtpjitterbuffer"@, "rtp (gst-plugins-good)"@),
        ("rtpL16pay"@, "rtp (gst-plugins-good)"@),
        ("aacparse"@, "audioparsers (gst-plugins-good)"@),
        ("x264enc"@, "x264 (gst-plugins-ugly)"@),
        ("x265enc"@, "x265 (gst-plugins-bad)"@),
        ("avdec_h264"@, "libav (gst-libav)"@),
        ("avdec_h265"@, "libav (gst-libav)"@),
        ("videotestsrc"@, "videotestsrc (gst-plugins-base)"@),
        ("imagefreeze"@, "imagefreeze (gst-plugins-good)"@),
        ("audiotestsrc"@, "audiotestsrc (gst-plugins-base)"@),
        ("decodebin"@, "playback (gst-plugins-good)"@),
    ]
}

/// What tells the kinds of element apart: their length, and three of their letters.
spec fn kind_mark(kind: Seq<char>) -> (nat, char, char, char) {
    (kind.len(), kind[0], kind[3], kind[5])
}

proof fn lemma_kind_marks()
    ensures
        kind_mark("appsrc"@) == (6nat, 'a', 's', 'c'),
        kind_mark("audioconvert"@) == (12nat, 'a', 'i', 'c'),
        kind_mark("adpcmdec"@) == (8nat, 'a', 'c', 'd'),
        kind_mark("h264parse"@) == (9nat, 'h', '4', 'a'),
        kind_mark("h265parse"@) == (9nat, 'h', '5', 'a'),
        kind_mark("rtph264pay"@) == (10nat, 'r', 'h', '6'),
        kind_mark("rtph265pay"@) == (10nat, 'r', 'h', '6'),
        kind_mark("rtpjitterbuffer"@) == (15nat, 'r', 'j', 't'),
        kind_mark("rtpL16pay"@) == (9nat, 'r', 'L', '6'),
        kind_mark("aacparse"@) == (8nat, 'a', 'p', 'r'),
        kind_mark("x264enc"@) == (7nat, 'x', '4', 'n'),
        kind_mark("x265enc"@) == (7nat, 'x', '5', 'n'),
        kind_mark("avdec_h264"@) == (10nat, 'a', 'e', '_'),
        kind_mark("avdec_h265"@) == (10nat, 'a', 'e', '_'),
        kind_mark("videotestsrc"@) == (12nat, 'v', 'e', 't'),
        kind_mark("imagefreeze"@) == (11nat, 'i', 'g', 'f'),
        kind_mark("audiotestsrc"@) == (12nat, 'a', 'i', 't'),
        kind_mark("decodebin"@) == (9nat, 'd', 'o', 'e'),
{
    reveal_strlit("appsrc");
    reveal_strlit("audioconvert");
    reveal_strlit("adpcmdec");
    reveal_strlit("h264parse");
    reveal_strlit("h265parse");
    reveal_strlit("rtph264pay");
    reveal_strlit("rtph265pay");
    reveal_strlit("rtpjitterbuffer");
    reveal_strlit("rtpL16pay");
    reveal_strlit("aacparse");
    reveal_strlit("x264enc");
    reveal_strlit("x265enc");
    reveal_strlit("avdec_h264");
    reveal_strlit("avdec_h265");
    reveal_strlit("videotestsrc");
    reveal_strlit("imagefreeze");
    reveal_strlit("audiotestsrc");
    reveal_strlit("decodebin");
}

/// Each kind of element that is known comes from its plugin, and the plugin of any other kind is
/// unknown.
pub proof fn law_every_kind_has_its_plugin(kind: Seq<char>)
    ensures
        forall|i: int|
            0 <= i < known_plugins().len() && kind == (#[trigger] known_plugins()[i]).0 ==> plugin(
                kind,
            ) == known_plugins()[i].1,
        (forall|i: int|
            0 <= i < known_plugins().len() ==> kind != (#[trigger] known_plugins()[i]).0)
            ==> plugin(kind) == "Unknown"@,
        known_plugins().len() == 18,
{
    lemma_kind_marks();
    let known = known_plugins();
    assert(known[0] == ("appsrc"@, "app (gst-plugins-base)"@));
    assert(known[1] == ("audioconvert"@, "audioconvert (gst-plugins-base)"@));
    assert(known[2] == ("adpcmdec"@, "Required for audio"@));
    assert(known[3] == ("h264parse"@, "videoparsersbad (gst-plugins-bad)"@));
    assert(known[4] == ("h265parse"@, "videoparsersbad (gst-plugins-bad)"@));
    assert(known[5] == ("rtph264pay"@, "rtp (gst-plugins-good)"@));
    assert(known[6] == ("rtph265pay"@, "rtp (gst-plugins-good)"@));
    assert(known[7] == ("rtpjitterbuffer"@, "rtp (gst-plugins-good)"@));
    assert(known[8] == ("rtpL16pay"@, "rtp (gst-plugins-good)"@));
    assert(known[9] == ("aacparse"@, "audioparsers (gst-plugins-good)"@));
    assert(known[10] == ("x264enc"@, "x264 (gst-plugins-ugly)"@));
    assert(known[11] == ("x265enc"@, "x265 (gst-plugins-bad)"@));
    assert(known[12] == ("avdec_h264"@, "libav (gst-libav)"@));
    assert(known[13] == ("avdec_h265"@, "libav (gst-libav)"@));
    assert(known[14] == ("videotestsrc"@, "videotestsrc (gst-plugins-base)"@));
    assert(known[15] == ("imagefreeze"@, "imagefreeze (gst-plugins-good)"@));
    assert(known[16] == ("audiotestsrc"@, "audiotestsrc (gst-plugins-base)"@));
    assert(known[17] == ("decodebin"@, "playback (gst-plugins-good)"@));
    assert forall|i: int| 0 <= i < known.len() && kind == (#[trigger] known[i]).0 implies plugin(
        kind,
    ) == known[i].1 by {
    }
}

/// The report on a missing plugin names the plugin and the kind of element, whatever they are,
/// with the same words around them.
pub proof fn law_the_report_names_the_plugin_and_the_kind(kind: Seq<char>)
    ensures
        ({
            let text = missing_text(kind);
            let n = plugin(kind).len() as int;
            &&& text.len() == 35 + n + 7 + kind.len() + 9
            &&& text.take(35) == "Missing required gstreamer plugin `"@
            &&& text.subrange(35, 35 + n) == plugin(kind)
            &&& text.subrange(35 + n, 42 + n) == "` for `"@
            &&& text.subrange(42 + n, 42 + n + kind.len()) == kind
            &&& text.skip(42 + n + kind.len()) == "` element"@
        }),
{
    reveal_strlit("Missing required gstreamer plugin `");
    reveal_strlit("` for `");
    reveal_strlit("` element");
    let text = missing_text(kind);
    let n = plugin(kind).len() as int;
    assert(text.take(35) =~= "Missing required gstreamer plugin `"@);
    assert(text.subrange(35, 35 + n) =~= plugin(kind));
    assert(text.subrange(35 + n, 42 + n) =~= "` for `"@);
    assert(text.subrange(42 + n, 42 + n + kind.len()) =~= kind);
    assert(text.skip(42 + n + kind.len()) =~= "` element"@);
}

} // verus!
