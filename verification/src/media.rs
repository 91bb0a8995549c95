//! Camera media, and the frames of it that RTSP clients share.

use std::sync::Arc;
use vstd::prelude::*;

verus! {

/// The encoding of the video frames of a stream.
#[derive(Clone, Copy, Debug, PartialEq, Eq, Structural)]
pub enum VideoType {
    H264,
    H265,
}

/// The encoding of the audio frames of a stream. ADPCM comes with its block size.
#[derive(Clone, Copy, Debug, PartialEq, Eq, Structural)]
pub enum AudioType {
    Aac,
    Adpcm(u32),
}

/// One packet of camera media.
///
/// The duration of an audio packet is in microseconds, where it is known.
#[derive(Debug)]
pub enum Media {
    InfoV1 { fps: u8 },
    InfoV2 { fps: u8 },
    Iframe { video_type: VideoType, data: Vec<u8> },
    Pframe { video_type: VideoType, data: Vec<u8> },
    Aac { data: Vec<u8>, duration: Option<u32> },
    Adpcm { data: Vec<u8>, block_size: u32, duration: Option<u32> },
}

impl Media {
    /// A packet that a decoder can start at.
    pub open spec fn is_key(self) -> bool {
        self is Iframe
    }

    pub open spec fn is_video(self) -> bool {
        self is Iframe || self is Pframe
    }

    pub open spec fn is_audio(self) -> bool {
        self is Aac || self is Adpcm
    }

    /// The bytes that go to a decoder. Stream information has none.
    pub open spec fn payload(self) -> Seq<u8> {
        match self {
            Media::Iframe { data, .. } => data@,
            Media::Pframe { data, .. } => data@,
            Media::Aac { data, .. } => data@,
            Media::Adpcm { data, .. } => data@,
            _ => seq![],
        }
    }

    /// How long an audio packet plays, 0 where that is unknown.
    pub open spec fn play_time(self) -> u32 {
        match self {
            Media::Aac { duration: Some(d), .. } => d,
            Media::Adpcm { duration: Some(d), .. } => d,
            _ => 0,
        }
    }

    /// Is this a frame of video or audio, which clients are sent?
    pub fn is_frame(&self) -> (r: bool)
        ensures
            r == (self.is_video() || self.is_audio()),
    {
        matches!(
            self,
            Media::Iframe { .. } | Media::Pframe { .. } | Media::Aac { .. } | Media::Adpcm { .. }
        )
    }

    /// The duration of an audio packet in microseconds, 0 where that is unknown.
    pub fn duration_or_zero(&self) -> (r: u32)
        ensures
            r == self.play_time(),
    {
        match self {
            Media::Aac { duration: Some(d), .. } => *d,
            Media::Adpcm { duration: Some(d), .. } => *d,
            _ => 0,
        }
    }
}

/// One frame of camera media that is shared between all RTSP clients.
#[derive(Debug)]
pub struct HubFrame {
    /// Increases every time the camera stream is (re)started.
    pub epoch: u64,
    pub media: Media,
}

impl HubFrame {
    /// Can a decoder start at this frame?
    pub fn is_keyframe(&self) -> (r: bool)
        ensures
            r == self.media.is_key(),
            r == (self.media is Iframe),
    {
        matches!(self.media, Media::Iframe { .. })
    }
}

/// Lets a buffer point at the bytes of a shared frame, so that no client has to copy them.
#[derive(Debug)]
pub struct FrameData(pub Arc<HubFrame>);

impl AsRef<[u8]> for FrameData {
    fn as_ref(&self) -> (r: &[u8])
        ensures
            r@ == self.0.media.payload(),
    {
        match &self.0.media {
            Media::Iframe { data, .. } => data.as_slice(),
            Media::Pframe { data, .. } => data.as_slice(),
            Media::Aac { data, .. } => data.as_slice(),
            Media::Adpcm { data, .. } => data.as_slice(),
            _ => &[],
        }
    }
}

/// What a packet is follows from its sort alone. A decoder can start at an I-frame, whatever its
/// encoding and its bytes, and at nothing else. I-frames and P-frames are video, AAC and ADPCM are
/// audio, and stream information is neither.
pub proof fn law_the_sort_of_a_packet_decides(
    video_type: VideoType,
    data: Vec<u8>,
    block_size: u32,
    duration: Option<u32>,
    fps: u8,
)
    ensures
        ({
            let packet = Media::Iframe { video_type, data };
            packet.is_key() && packet.is_video() && !packet.is_audio()
        }),
        ({
            let packet = Media::Pframe { video_type, data };
            !packet.is_key() && packet.is_video() && !packet.is_audio()
        }),
        ({
            let packet = Media::Aac { data, duration };
            !packet.is_key() && !packet.is_video() && packet.is_audio()
        }),
        ({
            let packet = Media::Adpcm { data, block_size, duration };
            !packet.is_key() && !packet.is_video() && packet.is_audio()
        }),
        ({
            let packet = Media::InfoV1 { fps };
            !packet.is_key() && !packet.is_video() && !packet.is_audio()
        }),
        ({
            let packet = Media::InfoV2 { fps };
            !packet.is_key() && !packet.is_video() && !packet.is_audio()
        }),
{
}

/// A decoder gets the bytes of a frame as they came, whatever sort of frame it is, and no bytes of
/// stream information.
pub proof fn law_frames_keep_their_bytes(
    video_type: VideoType,
    data: Vec<u8>,
    block_size: u32,
    duration: Option<u32>,
    fps: u8,
)
    ensures
        (Media::Iframe { video_type, data }).payload() == data@,
        (Media::Pframe { video_type, data }).payload() == data@,
        (Media::Aac { data, duration }).payload() == data@,
        (Media::Adpcm { data, block_size, duration }).payload() == data@,
        (Media::InfoV1 { fps }).payload().len() == 0,
        (Media::InfoV2 { fps }).payload().len() == 0,
{
}

/// Audio plays as long as its packet says, whatever its encoding, and no time where the packet
/// does not say. Nothing else takes up time on the clock for audio.
pub proof fn law_audio_plays_as_long_as_it_says(
    video_type: VideoType,
    data: Vec<u8>,
    block_size: u32,
    time: u32,
    fps: u8,
)
    ensures
        (Media::Aac { data, duration: Some(time) }).play_time() == time,
        (Media::Adpcm { data, block_size, duration: Some(time) }).play_time() == time,
        (Media::Aac { data, duration: None }).play_time() == 0,
        (Media::Adpcm { data, block_size, duration: None }).play_time() == 0,
        (Media::Iframe { video_type, data }).play_time() == 0,
        (Media::Pframe { video_type, data }).play_time() == 0,
        (Media::InfoV1 { fps }).play_time() == 0,
        (Media::InfoV2 { fps }).play_time() == 0,
{
}

} // verus!
