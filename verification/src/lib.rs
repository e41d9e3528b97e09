//! Camera capture support library: frame types, packetization for real-time
//! streaming, quality bookkeeping and capture decision logic.

pub mod errors;
pub mod types;
pub mod platform;
pub mod preview;
pub mod quality;
pub mod recording;
pub mod registry;
pub mod testing;
pub mod text;
pub mod timing;
pub mod webrtc;
