//! Real-time streaming: RTP packetization of encoded media and stream bookkeeping.

pub mod rtp;
pub mod yuv;
pub mod streaming;
pub mod conference;
