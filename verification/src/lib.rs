//! The decisions behind an RTSP media factory for network cameras.
//!
//! One camera stream is fanned out to any number of RTSP clients. This library holds what
//! has to be decided on the way: which encoding a stream uses, which frames a new client
//! gets first, which frames a client may be sent at what time, and which elements its
//! pipeline is made of.

pub mod camera;
pub mod clients;
pub mod config;
pub mod feed;
pub mod gop;
pub mod media;
pub mod pipelines;
pub mod plugins;
pub mod script;
pub mod table;

pub use config::{EncodeTable, StreamConfig, StreamInfo};
pub use gop::Gop;
pub use media::{AudioType, FrameData, HubFrame, Media, VideoType};
