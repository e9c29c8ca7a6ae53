//! Wireless display: the verified core of a phone-to-desktop screen mirroring
//! system.

pub mod cast;
pub mod clock;
pub mod codec;
pub mod config;
pub mod diag;
pub mod discovery;
pub mod framing;
pub mod identity;
pub mod ingest;
pub mod json;
pub mod listener;
pub mod media;
pub mod messages;
pub mod opts;
pub mod ordmap;
pub mod pairing;
pub mod phone;
pub mod rtp;
pub mod secret;
pub mod session;
pub mod text;
pub mod ui;
pub mod wire;

pub use framing::{CodecError, decode_frame, encode_frame};
pub use messages::{
    AudioCodec, AudioOffer, MAX_MESSAGE_LEN, Message, PROTOCOL_NAME, PairingOutcomeInfo, Version,
    VideoCodec, VideoOffer,
};
