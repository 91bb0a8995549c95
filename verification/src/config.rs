//! What is known of a camera stream: the encoding that the camera promises for it, and what
//! its media reveals later.

use vstd::prelude::*;

use crate::media::{AudioType, Media, VideoType};
use crate::table::{parse_table, table};

verus! {

/// Bits in a kilobit, the unit in which a camera gives its bitrates.
pub const KILOBIT: u32 = 1024;

/// One encoding that a camera offers.
#[derive(Debug)]
pub struct EncodeTable {
    /// The name of the stream that is encoded so.
    pub name: String,
    pub width: u32,
    pub height: u32,
    /// The place of the default in `bitrate_table`, or the default itself.
    pub default_bitrate: u32,
    /// The place of the default in `framerate_table`, or the default itself.
    pub default_framerate: u32,
    /// Bitrates in kilobits per second, with commas between them.
    pub bitrate_table: String,
    /// Frames per second, with commas between them.
    pub framerate_table: String,
}

/// Encodings that a camera lists together.
#[derive(Debug)]
pub struct StreamInfo {
    pub encode_tables: Vec<EncodeTable>,
}

/// All the encodings that a camera lists, in order.
pub open spec fn all_tables(infos: Seq<StreamInfo>) -> Seq<EncodeTable>
    decreases infos.len(),
{
    if infos.len() == 0 {
        seq![]
    } else {
        infos[0].encode_tables@ + all_tables(infos.drop_first())
    }
}

/// The first encoding of a stream among those that are listed.
pub open spec fn first_named(tables: Seq<EncodeTable>, stream: Seq<char>) -> Option<EncodeTable>
    decreases tables.len(),
{
    if tables.len() == 0 {
        None
    } else if tables[0].name@ == stream {
        Some(tables[0])
    } else {
        first_named(tables.drop_first(), stream)
    }
}

/// What stands at a place of a table, or the place itself where the table is shorter.
pub open spec fn entry_or_self(table: Seq<u32>, place: u32) -> u32 {
    if place < table.len() {
        table[place as int]
    } else {
        place
    }
}

/// The default bitrate of an encoding, in bits per second.
pub open spec fn default_bits(encode: EncodeTable) -> int {
    entry_or_self(table(encode.bitrate_table@), encode.default_bitrate) * KILOBIT
}

/// The configuration that an encoding stands for.
pub open spec fn described(encode: EncodeTable) -> StreamConfigView {
    StreamConfigView {
        resolution: seq![encode.width, encode.height],
        bitrate: default_bits(encode) as u32,
        fps: entry_or_self(table(encode.framerate_table@), encode.default_framerate),
        bitrate_table: table(encode.bitrate_table@),
        fps_table: table(encode.framerate_table@),
        vid_type: None,
        aud_type: None,
    }
}

/// The configuration of a stream that the camera lists no encoding for.
pub open spec fn undescribed() -> StreamConfigView {
    StreamConfigView {
        resolution: seq![0, 0],
        bitrate: 0,
        fps: 0,
        bitrate_table: seq![],
        fps_table: seq![],
        vid_type: None,
        aud_type: None,
    }
}

/// The configuration of a stream, going by what the camera lists.
pub open spec fn listed(infos: Seq<StreamInfo>, stream: Seq<char>) -> StreamConfigView {
    match first_named(all_tables(infos), stream) {
        Some(encode) => described(encode),
        None => undescribed(),
    }
}

/// Does the default bitrate of a stream, in bits per second, fit in 32 bits?
pub open spec fn listed_fits(infos: Seq<StreamInfo>, stream: Seq<char>) -> bool {
    match first_named(all_tables(infos), stream) {
        Some(encode) => default_bits(encode) <= u32::MAX,
        None => true,
    }
}

/// What is known of a camera stream.
#[derive(Debug)]
pub struct StreamConfig {
    /// Width and height.
    pub resolution: [u32; 2],
    /// Bits per second.
    pub bitrate: u32,
    /// Frames per second.
    pub fps: u32,
    pub bitrate_table: Vec<u32>,
    pub fps_table: Vec<u32>,
    /// The encoding of the video frames, once one has come.
    pub vid_type: Option<VideoType>,
    /// The encoding of the audio frames, once one has come.
    pub aud_type: Option<AudioType>,
}

/// The mathematical model of a `StreamConfig`.
#[verifier::ext_equal]
pub struct StreamConfigView {
    pub resolution: Seq<u32>,
    pub bitrate: u32,
    pub fps: u32,
    pub bitrate_table: Seq<u32>,
    pub fps_table: Seq<u32>,
    pub vid_type: Option<VideoType>,
    pub aud_type: Option<AudioType>,
}

impl View for StreamConfig {
    type V = StreamConfigView;

    open spec fn view(&self) -> StreamConfigView {
        StreamConfigView {
            resolution: self.resolution@,
            bitrate: self.bitrate,
            fps: self.fps,
            bitrate_table: self.bitrate_table@,
            fps_table: self.fps_table@,
            vid_type: self.vid_type,
            aud_type: self.aud_type,
        }
    }
}

impl StreamConfigView {
    /// What a packet of media adds to what is known of its stream.
    pub open spec fn taught(self, media: Media) -> StreamConfigView {
        match media {
            Media::InfoV1 { fps } => StreamConfigView {
                fps: entry_or_self(self.fps_table, fps as u32),
                ..self
            },
            Media::InfoV2 { fps } => StreamConfigView {
                fps: entry_or_self(self.fps_table, fps as u32),
                ..self
            },
            Media::Aac { .. } => StreamConfigView { aud_type: Some(AudioType::Aac), ..self },
            Media::Adpcm { block_size, .. } => StreamConfigView {
                aud_type: Some(AudioType::Adpcm(block_size)),
                ..self
            },
            Media::Iframe { video_type, .. } => StreamConfigView {
                vid_type: Some(video_type),
                ..self
            },
            Media::Pframe { video_type, .. } => StreamConfigView {
                vid_type: Some(video_type),
                ..self
            },
        }
    }

    /// Are both the video and the audio encoding known?
    pub open spec fn is_complete(self) -> bool {
        self.vid_type is Some && self.aud_type is Some
    }
}

/// What stands at a place of a table, or the place itself where the table is shorter.
pub fn look_up(table: &Vec<u32>, place: u32) -> (r: u32)
    ensures
        r == entry_or_self(table@, place),
{
    if (place as usize) < table.len() {
        table[place as usize]
    } else {
        place
    }
}

/// The first encoding of a stream that a camera lists.
pub fn find_encode<'a>(infos: &'a Vec<StreamInfo>, stream: &str) -> (r: Option<&'a EncodeTable>)
    ensures
        match r {
            Some(encode) => first_named(all_tables(infos@), stream@) == Some(*encode),
            None => first_named(all_tables(infos@), stream@) is None,
        },
{
    let wanted = stream.to_owned();
    let ghost whole = first_named(all_tables(infos@), stream@);
    let mut i: usize = 0;
    assert(infos@.skip(0) =~= infos@);
    while i < infos.len()
        invariant
            i <= infos.len(),
            wanted@ == stream@,
            whole == first_named(all_tables(infos@), stream@),
            whole == first_named(all_tables(infos@.skip(i as int)), stream@),
        decreases infos.len() - i,
    {
        let tables = &infos[i].encode_tables;
        let ghost later = all_tables(infos@.skip(i + 1));
        assert(infos@.skip(i as int).drop_first() =~= infos@.skip(i + 1));
        assert(tables@.skip(0) =~= tables@);
        let mut j: usize = 0;
        while j < tables.len()
            invariant
                j <= tables.len(),
                wanted@ == stream@,
                whole == first_named(all_tables(infos@), stream@),
                whole == first_named(tables@.skip(j as int) + later, stream@),
            decreases tables.len() - j,
        {
            let ghost rest = tables@.skip(j as int) + later;
            assert(rest[0] == tables@[j as int]);
            if tables[j].name == wanted {
                return Some(&tables[j]);
            }
            assert(rest.drop_first() =~= tables@.skip(j + 1) + later);
            j = j + 1;
        }
        assert(tables@.skip(j as int) + later =~= later);
        i = i + 1;
    }
    assert(infos@.skip(i as int) =~= seq![]);
    None
}

impl StreamConfig {
    /// The configuration of a stream, going by the encodings that the camera lists.
    ///
    /// The bitrate is given in kilobits: in bits it has to fit in 32 bits.
    pub fn new(infos: &Vec<StreamInfo>, stream: &str) -> (r: StreamConfig)
        requires
            listed_fits(infos@, stream@),
        ensures
            r@ == listed(infos@, stream@),
    {
        match find_encode(infos, stream) {
            Some(encode) => {
                let bitrate_table = parse_table(encode.bitrate_table.as_str());
                let fps_table = parse_table(encode.framerate_table.as_str());
                let bitrate: u32 = look_up(&bitrate_table, encode.default_bitrate) * KILOBIT;
                let fps: u32 = look_up(&fps_table, encode.default_framerate);
                let r = StreamConfig {
                    resolution: [encode.width, encode.height],
                    bitrate,
                    fps,
                    bitrate_table,
                    fps_table,
                    vid_type: None,
                    aud_type: None,
                };
                assert(r@ =~= described(*encode));
                r
            },
            None => {
                let r = StreamConfig {
                    resolution: [0, 0],
                    bitrate: 0,
                    fps: 0,
                    bitrate_table: Vec::new(),
                    fps_table: Vec::new(),
                    vid_type: None,
                    aud_type: None,
                };
                assert(r@ =~= undescribed());
                r
            },
        }
    }

    /// Does the bitrate that `new` computes for a stream fit in 32 bits?
    pub fn bitrate_fits(infos: &Vec<StreamInfo>, stream: &str) -> (r: bool)
        ensures
            r == listed_fits(infos@, stream@),
    {
        match find_encode(infos, stream) {
            Some(encode) => {
                let bitrate_table = parse_table(encode.bitrate_table.as_str());
                let kilobits: u32 = look_up(&bitrate_table, encode.default_bitrate);
                kilobits as u64 * KILOBIT as u64 <= u32::MAX as u64
            },
            None => true,
        }
    }

    /// Takes over a frame rate, given by its place in the frame rate table or as such.
    pub fn update_fps(&mut self, fps: u32)
        ensures
            final(self)@ == (StreamConfigView {
                fps: entry_or_self(old(self)@.fps_table, fps),
                ..old(self)@
            }),
    {
        self.fps = look_up(&self.fps_table, fps);
    }

    /// Takes over a bitrate, given by its place in the bitrate table or as such.
    pub fn update_bitrate(&mut self, bitrate: u32)
        ensures
            final(self)@ == (StreamConfigView {
                bitrate: entry_or_self(old(self)@.bitrate_table, bitrate),
                ..old(self)@
            }),
    {
        self.bitrate = look_up(&self.bitrate_table, bitrate);
    }

    /// Learns from a packet of the stream's media.
    pub fn update_from_media(&mut self, media: &Media)
        ensures
            final(self)@ == old(self)@.taught(*media),
    {
        match media {
            Media::InfoV1 { fps } => self.update_fps(*fps as u32),
            Media::InfoV2 { fps } => self.update_fps(*fps as u32),
            Media::Aac { .. } => {
                self.aud_type = Some(AudioType::Aac);
            },
            Media::Adpcm { block_size, .. } => {
                self.aud_type = Some(AudioType::Adpcm(*block_size));
            },
            Media::Iframe { video_type, .. } => {
                self.vid_type = Some(*video_type);
            },
            Media::Pframe { video_type, .. } => {
                self.vid_type = Some(*video_type);
            },
        }
    }
}

impl Clone for StreamConfig {
    fn clone(&self) -> (r: StreamConfig)
        ensures
            r@ == self@,
    {
        StreamConfig {
            resolution: self.resolution,
            bitrate: self.bitrate,
            fps: self.fps,
            bitrate_table: self.bitrate_table.clone(),
            fps_table: self.fps_table.clone(),
            vid_type: self.vid_type,
            aud_type: self.aud_type,
        }
    }
}

/// The encoding that is found is the first one of its name, and none is found only where none
/// has the name.
pub proof fn law_first_listed_is_found(tables: Seq<EncodeTable>, stream: Seq<char>)
    ensures
        match first_named(tables, stream) {
            Some(encode) => exists|i: int|
                0 <= i < tables.len() && #[trigger] tables[i] == encode && encode.name@ == stream
                    && (forall|j: int| 0 <= j < i ==> (#[trigger] tables[j]).name@ != stream),
            None => forall|j: int| 0 <= j < tables.len() ==> (#[trigger] tables[j]).name@ != stream,
        },
    decreases tables.len(),
{
    if tables.len() > 0 && tables[0].name@ != stream {
        let rest = tables.drop_first();
        law_first_listed_is_found(rest, stream);
        match first_named(tables, stream) {
            Some(encode) => {
                let i = choose|i: int|
                    0 <= i < rest.len() && #[trigger] rest[i] == encode && encode.name@ == stream
                        && (forall|j: int| 0 <= j < i ==> (#[trigger] rest[j]).name@ != stream);
                assert(tables[i + 1] == encode);
                assert forall|j: int| 0 <= j < i + 1 implies (#[trigger] tables[j]).name@
                    != stream by {
                    if j > 0 {
                        assert(rest[j - 1] == tables[j]);
                    }
                }
            },
            None => {
                assert forall|j: int| 0 <= j < tables.len() implies (#[trigger] tables[j]).name@
                    != stream by {
                    if j > 0 {
                        assert(rest[j - 1] == tables[j]);
                    }
                }
            },
        }
    }
}

/// Only the first encoding of a stream counts: two cameras that list it behind encodings of
/// other streams alone give the same configuration, whatever else they list before it or behind
/// it.
pub proof fn law_only_the_first_listed_counts(
    infos: Seq<StreamInfo>,
    other_infos: Seq<StreamInfo>,
    before: Seq<EncodeTable>,
    other_before: Seq<EncodeTable>,
    encode: EncodeTable,
    behind: Seq<EncodeTable>,
    other_behind: Seq<EncodeTable>,
)
    requires
        all_tables(infos) == before.push(encode) + behind,
        all_tables(other_infos) == other_before.push(encode) + other_behind,
        forall|i: int| 0 <= i < before.len() ==> (#[trigger] before[i]).name@ != encode.name@,
        forall|i: int|
            0 <= i < other_before.len() ==> (#[trigger] other_before[i]).name@ != encode.name@,
    ensures
        listed(infos, encode.name@) == described(encode),
        listed(other_infos, encode.name@) == listed(infos, encode.name@),
        listed_fits(other_infos, encode.name@) == listed_fits(infos, encode.name@),
{
    lemma_first_named(before, encode, behind);
    lemma_first_named(other_before, encode, other_behind);
}

proof fn lemma_first_named(
    before: Seq<EncodeTable>,
    encode: EncodeTable,
    behind: Seq<EncodeTable>,
)
    requires
        forall|i: int| 0 <= i < before.len() ==> (#[trigger] before[i]).name@ != encode.name@,
    ensures
        first_named(before.push(encode) + behind, encode.name@) == Some(encode),
    decreases before.len(),
{
    let tables = before.push(encode) + behind;
    if before.len() > 0 {
        let rest = before.drop_first();
        assert forall|i: int| 0 <= i < rest.len() implies (#[trigger] rest[i]).name@
            != encode.name@ by {
            assert(rest[i] == before[i + 1]);
        }
        lemma_first_named(rest, encode, behind);
        assert(tables[0] == before[0]);
        assert(tables.drop_first() =~= rest.push(encode) + behind);
    }
}

/// Media adds to what is known of its stream: an encoding that is known stays known, a frame
/// never changes the frame rate, and nothing changes what the camera listed.
pub proof fn law_media_takes_nothing_away(config: StreamConfigView, media: Media)
    ensures
        config.vid_type is Some ==> config.taught(media).vid_type is Some,
        config.aud_type is Some ==> config.taught(media).aud_type is Some,
        !(media is Aac || media is Adpcm) ==> config.taught(media).aud_type == config.aud_type,
        !(media is Iframe || media is Pframe) ==> config.taught(media).vid_type == config.vid_type,
        !(media is InfoV1 || media is InfoV2) ==> config.taught(media).fps == config.fps,
        config.taught(media).resolution == config.resolution,
        config.taught(media).bitrate == config.bitrate,
        config.taught(media).bitrate_table == config.bitrate_table,
        config.taught(media).fps_table == config.fps_table,
        config.taught(media).taught(media) == config.taught(media),
{
}

/// A packet tells what it carries, whatever was known before: an I-frame or a P-frame the encoding
/// of the video, an audio packet the encoding of the audio, ADPCM with its block size, and stream
/// information the frame rate, as a place in the table of frame rates or as such.
pub proof fn law_packets_tell_what_they_carry(
    config: StreamConfigView,
    video_type: VideoType,
    data: Vec<u8>,
    block_size: u32,
    duration: Option<u32>,
    fps: u8,
)
    ensures
        config.taught(Media::Iframe { video_type, data }).vid_type == Some(video_type),
        config.taught(Media::Pframe { video_type, data }).vid_type == Some(video_type),
        config.taught(Media::Aac { data, duration }).aud_type == Some(AudioType::Aac),
        config.taught(Media::Adpcm { data, block_size, duration }).aud_type == Some(
            AudioType::Adpcm(block_size),
        ),
        fps < config.fps_table.len() ==> {
            &&& config.taught(Media::InfoV1 { fps }).fps == config.fps_table[fps as int]
            &&& config.taught(Media::InfoV2 { fps }).fps == config.fps_table[fps as int]
        },
        fps >= config.fps_table.len() ==> {
            &&& config.taught(Media::InfoV1 { fps }).fps == fps
            &&& config.taught(Media::InfoV2 { fps }).fps == fps
        },
{
}

/// What is known once some packets have come, one after the other.
pub open spec fn taught_by(config: StreamConfigView, packets: Seq<Media>) -> StreamConfigView
    decreases packets.len(),
{
    if packets.len() == 0 {
        config
    } else {
        taught_by(config, packets.drop_last()).taught(packets.last())
    }
}

/// The last video frame decides which encoding of video is known, whether it is an I-frame or a
/// P-frame, and whatever audio and information comes behind it.
pub proof fn law_the_last_video_frame_decides(
    config: StreamConfigView,
    packets: Seq<Media>,
    last: int,
)
    requires
        0 <= last < packets.len(),
        packets[last] is Iframe || packets[last] is Pframe,
        forall|i: int|
            last < i < packets.len() ==> !((#[trigger] packets[i]) is Iframe) && !(
            packets[i] is Pframe),
    ensures
        packets[last] matches Media::Iframe { video_type, .. } ==> taught_by(
            config,
            packets,
        ).vid_type == Some(video_type),
        packets[last] matches Media::Pframe { video_type, .. } ==> taught_by(
            config,
            packets,
        ).vid_type == Some(video_type),
    decreases packets.len(),
{
    if last < packets.len() - 1 {
        let before = packets.drop_last();
        assert forall|i: int| last < i < before.len() implies !((#[trigger] before[i]) is Iframe)
            && !(before[i] is Pframe) by {
            assert(before[i] == packets[i]);
        }
        assert(before[last] == packets[last]);
        law_the_last_video_frame_decides(config, before, last);
        assert(packets[packets.len() - 1] == packets.last());
    }
}

/// The last audio frame decides which encoding of audio is known, whatever video and information
/// comes behind it.
pub proof fn law_the_last_audio_frame_decides(
    config: StreamConfigView,
    packets: Seq<Media>,
    last: int,
)
    requires
        0 <= last < packets.len(),
        packets[last] is Aac || packets[last] is Adpcm,
        forall|i: int|
            last < i < packets.len() ==> !((#[trigger] packets[i]) is Aac) && !(
            packets[i] is Adpcm),
    ensures
        packets[last] is Aac ==> taught_by(config, packets).aud_type == Some(AudioType::Aac),
        packets[last] matches Media::Adpcm { block_size, .. } ==> taught_by(
            config,
            packets,
        ).aud_type == Some(AudioType::Adpcm(block_size)),
    decreases packets.len(),
{
    if last < packets.len() - 1 {
        let before = packets.drop_last();
        assert forall|i: int| last < i < before.len() implies !((#[trigger] before[i]) is Aac)
            && !(before[i] is Adpcm) by {
            assert(before[i] == packets[i]);
        }
        assert(before[last] == packets[last]);
        law_the_last_audio_frame_decides(config, before, last);
        assert(packets[packets.len() - 1] == packets.last());
    }
}

/// A table has the last word where it is long enough: a place in it stands for what the table
/// holds there, and only a place beyond its end stands for itself. So a longer table changes
/// nothing for the places that a shorter one has.
pub proof fn law_tables_have_the_last_word(table: Seq<u32>, more: Seq<u32>, place: u32)
    ensures
        place < table.len() ==> {
            &&& entry_or_self(table, place) == table[place as int]
            &&& entry_or_self(table + more, place) == table[place as int]
        },
        place >= table.len() ==> entry_or_self(table, place) == place,
{
}

/// What a camera lists together is listed in its order, and what it lists later comes behind it.
pub proof fn law_encodings_are_listed_in_order(
    infos: Seq<StreamInfo>,
    more: Seq<StreamInfo>,
    info: StreamInfo,
)
    ensures
        all_tables(seq![info]) == info.encode_tables@,
        all_tables(infos + more) == all_tables(infos) + all_tables(more),
    decreases infos.len(),
{
    assert(seq![info].drop_first() =~= seq![]);
    assert(all_tables(seq![info].drop_first()) =~= seq![]);
    assert(all_tables(seq![info]) =~= info.encode_tables@);
    if infos.len() == 0 {
        assert(infos + more =~= more);
        assert(all_tables(infos) + all_tables(more) =~= all_tables(more));
    } else {
        law_encodings_are_listed_in_order(infos.drop_first(), more, info);
        assert((infos + more).drop_first() =~= infos.drop_first() + more);
        assert(all_tables(infos + more) =~= all_tables(infos) + all_tables(more));
    }
}

/// What is known of a stream at first is what its encoding says: the resolution, both tables, the
/// frame rate and the bitrate in bits, the last two looked up in the tables where they are places
/// there. The bitrate fits exactly where 1024 times the kilobits do, and no encoding of frames is
/// known yet.
pub proof fn law_a_listed_stream_is_as_its_encoding_says(
    infos: Seq<StreamInfo>,
    stream: Seq<char>,
    first: int,
)
    requires
        0 <= first < all_tables(infos).len(),
        all_tables(infos)[first].name@ == stream,
        forall|i: int|
            0 <= i < first ==> (#[trigger] all_tables(infos)[i]).name@ != stream,
    ensures
        ({
            let encode = all_tables(infos)[first];
            let config = listed(infos, stream);
            let bitrates = table(encode.bitrate_table@);
            let rates = table(encode.framerate_table@);
            let kilobits = if encode.default_bitrate < bitrates.len() {
                bitrates[encode.default_bitrate as int]
            } else {
                encode.default_bitrate
            };
            &&& config.resolution.len() == 2
            &&& config.resolution[0] == encode.width
            &&& config.resolution[1] == encode.height
            &&& config.bitrate_table == bitrates
            &&& config.fps_table == rates
            &&& encode.default_framerate < rates.len() ==> config.fps
                == rates[encode.default_framerate as int]
            &&& encode.default_framerate >= rates.len() ==> config.fps == encode.default_framerate
            &&& listed_fits(infos, stream) <==> kilobits * 1024 <= 0xFFFF_FFFF
            &&& listed_fits(infos, stream) ==> config.bitrate == kilobits * 1024
            &&& config.vid_type is None
            &&& config.aud_type is None
        }),
{
    let tables = all_tables(infos);
    let before = tables.take(first);
    let behind = tables.skip(first + 1);
    assert(tables =~= before.push(tables[first]) + behind);
    assert forall|i: int| 0 <= i < before.len() implies (#[trigger] before[i]).name@
        != tables[first].name@ by {
        assert(before[i] == tables[i]);
    }
    lemma_first_named(before, tables[first], behind);
}

/// Nothing is known at first of a stream that the camera does not list.
pub proof fn law_nothing_is_known_of_an_unlisted_stream(
    infos: Seq<StreamInfo>,
    stream: Seq<char>,
)
    requires
        forall|i: int|
            0 <= i < all_tables(infos).len() ==> (#[trigger] all_tables(infos)[i]).name@ != stream,
    ensures
        listed_fits(infos, stream),
        listed(infos, stream).resolution == seq![0u32, 0u32],
        listed(infos, stream).bitrate == 0,
        listed(infos, stream).fps == 0,
        listed(infos, stream).bitrate_table.len() == 0,
        listed(infos, stream).fps_table.len() == 0,
        listed(infos, stream).vid_type is None,
        listed(infos, stream).aud_type is None,
{
    law_first_listed_is_found(all_tables(infos), stream);
}

/// The model of a configuration shows its fields as they are.
pub proof fn law_the_model_of_a_configuration_is_faithful(config: StreamConfig)
    ensures
        config@.resolution == config.resolution@,
        config@.bitrate == config.bitrate,
        config@.fps == config.fps,
        config@.bitrate_table == config.bitrate_table@,
        config@.fps_table == config.fps_table@,
        config@.vid_type == config.vid_type,
        config@.aud_type == config.aud_type,
{
}

} // verus!
