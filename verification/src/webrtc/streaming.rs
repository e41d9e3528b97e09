//! WebRTC streaming: configuration, encoded media, H.264 encoding and the
//! streamer's bookkeeping (state, packetizers, per-frame schedule).

use vstd::prelude::*;
use vstd::string::StringExecFns;
use crate::types::{CameraFrame, rgb8_name};
use crate::webrtc::rtp::{H264RTPPacketizer, OpusRTPPacketizer, RtpPayload, packetizable, seq_after};
use crate::webrtc::yuv::{rgb_to_yuv420, yuv420_of};

verus! {

broadcast use vstd::string::to_string_from_display_ensures_for_str;

// ---------------------------------------------------------------------------
// Configuration and media types
// ---------------------------------------------------------------------------

/// Supported video codecs for WebRTC streaming
#[derive(Debug, Clone, Copy, PartialEq, Eq, Structural)]
pub enum VideoCodec {
    /// H.264 / AVC.
    H264,
    /// VP8.
    VP8,
    /// VP9.
    VP9,
    /// AV1.
    AV1,
}

/// WebRTC streaming configuration
#[derive(Debug, Clone, Copy, PartialEq, Eq, Structural)]
pub struct StreamConfig {
    /// Target bitrate in bps.
    pub bitrate: u32,
    /// Maximum frames per second.
    pub max_fps: u32,
    /// Stream width.
    pub width: u32,
    /// Stream height.
    pub height: u32,
    /// Video codec.
    pub codec: VideoCodec,
}

impl Default for StreamConfig {
    fn default() -> (c: Self)
        ensures
            c == (StreamConfig {
                bitrate: 2_000_000,
                max_fps: 30,
                width: 1280,
                height: 720,
                codec: VideoCodec::H264,
            }),
    {
        Self { bitrate: 2_000_000, max_fps: 30, width: 1280, height: 720, codec: VideoCodec::H264 }
    }
}

/// Frame type for WebRTC streaming
#[derive(Debug, Clone, Copy, PartialEq, Eq, Structural)]
pub enum WebRTCFrameType {
    /// I-frame.
    Keyframe,
    /// P-frame.
    Delta,
}

/// Encoded frame for WebRTC transmission
#[derive(Debug, Clone)]
pub struct EncodedFrame {
    /// Encoded bitstream (Annex B for H.264).
    pub data: Vec<u8>,
    /// Presentation timestamp in milliseconds.
    pub timestamp: u64,
    /// Key or delta frame.
    pub frame_type: WebRTCFrameType,
    /// Frame width.
    pub width: u32,
    /// Frame height.
    pub height: u32,
}

/// Encoded audio packet for WebRTC transmission
#[derive(Debug, Clone)]
pub struct WebRTCAudioPacket {
    /// Encoded Opus packet.
    pub data: Vec<u8>,
    /// Timestamp.
    pub timestamp: u64,
    /// Sample rate in Hz.
    pub sample_rate: i32,
    /// Channel count.
    pub channels: i32,
}

/// Stream statistics
#[derive(Debug)]
pub struct StreamStats {
    /// Stream identifier.
    pub stream_id: String,
    /// Whether the stream is running.
    pub is_active: bool,
    /// Target bitrate in bps.
    pub target_bitrate: u32,
    /// Current frame rate (0 while inactive).
    pub current_fps: u32,
    /// Stream resolution (width, height).
    pub resolution: (u32, u32),
    /// Video codec.
    pub codec: VideoCodec,
    /// Number of frame subscribers.
    pub subscribers: usize,
}

// ---------------------------------------------------------------------------
// Stream schedule
// ---------------------------------------------------------------------------

/// Number of frames between forced keyframes of a stream.
pub const KEYFRAME_INTERVAL: u64 = 30;

/// What the streaming loop does with its next frame.
#[derive(Debug, Clone, Copy, PartialEq, Eq, Structural)]
pub struct FrameSchedule {
    /// Key or delta frame.
    pub frame_type: WebRTCFrameType,
    /// Counter of the most recent keyframe after this frame.
    pub last_keyframe: u64,
    /// Presentation timestamp of the frame in milliseconds.
    pub timestamp: u64,
    /// Pause before the next frame, in milliseconds.
    pub interval_ms: u64,
}

/// The frame interval, in milliseconds, of a stream running at `max_fps`.
pub open spec fn frame_interval(max_fps: u32) -> u64 {
    (1000int / (max_fps as int)) as u64
}

/// Decide the type, timestamp and pacing of frame number `frame_counter`: a
/// keyframe once `KEYFRAME_INTERVAL` frames have passed since the last one,
/// a delta frame otherwise; timestamps advance by the frame interval.
pub fn schedule_frame(frame_counter: u64, last_keyframe: u64, config: &StreamConfig) -> (s:
    FrameSchedule)
    requires
        config.max_fps > 0,
        last_keyframe <= frame_counter,
        frame_counter * frame_interval(config.max_fps) <= u64::MAX,
    ensures
        s.interval_ms == frame_interval(config.max_fps),
        s.timestamp == frame_counter * frame_interval(config.max_fps),
        frame_counter - last_keyframe >= KEYFRAME_INTERVAL ==> s.frame_type
            == WebRTCFrameType::Keyframe && s.last_keyframe == frame_counter,
        frame_counter - last_keyframe < KEYFRAME_INTERVAL ==> s.frame_type == WebRTCFrameType::Delta
            && s.last_keyframe == last_keyframe,
{
    let interval_ms = 1000 / (config.max_fps as u64);
    let (frame_type, last) = if frame_counter - last_keyframe >= KEYFRAME_INTERVAL {
        (WebRTCFrameType::Keyframe, frame_counter)
    } else {
        (WebRTCFrameType::Delta, last_keyframe)
    };
    FrameSchedule {
        frame_type,
        last_keyframe: last,
        timestamp: frame_counter * interval_ms,
        interval_ms,
    }
}

/// A black YUV 4:2:0 picture: a zero Y plane followed by neutral (128) chroma planes.
pub open spec fn black_yuv420(width: int, height: int) -> Seq<u8> {
    let ysz = width * height;
    let csz = (width / 2) * (height / 2);
    Seq::new((ysz + 2 * csz) as nat, |i: int| if i < ysz { 0u8 } else { 128u8 })
}

/// Build the black placeholder picture the stream sends until camera frames
/// are wired in.
pub fn black_frame_yuv420(width: u32, height: u32) -> (yuv: Vec<u8>)
    requires
        width * height <= u32::MAX,
        width * height + 2 * ((width / 2) * (height / 2)) <= usize::MAX,
    ensures
        yuv@ == black_yuv420(width as int, height as int),
{
    let y_size = (width * height) as usize;
    assert((width / 2) * (height / 2) <= width * height) by (nonlinear_arith);
    let uv_size = ((width / 2) * (height / 2)) as usize;
    let total = y_size + 2 * uv_size;
    let mut yuv: Vec<u8> = Vec::new();
    let mut i: usize = 0;
    while i < total
        invariant
            i <= total,
            total == y_size + 2 * uv_size,
            y_size == width * height,
            uv_size == (width / 2) * (height / 2),
            yuv@.len() == i,
            forall|k: int| 0 <= k < i ==> #[trigger] yuv@[k] == (if k < y_size { 0u8 } else { 128u8 }),
        decreases total - i,
    {
        if i < y_size {
            yuv.push(0);
        } else {
            yuv.push(128);
        }
        i += 1;
    }
    assert(yuv@ =~= black_yuv420(width as int, height as int));
    yuv
}

// ---------------------------------------------------------------------------
// H.264 encoding (openh264)
// ---------------------------------------------------------------------------

#[verifier::external_type_specification]
#[verifier::external_body]
pub struct ExH264Encoder(openh264::encoder::Encoder);

#[verifier::external_type_specification]
#[verifier::external_body]
pub struct ExOpenH264Error(openh264::Error);

/// `openh264::encoder::Encoder::new`: an encoder with default settings. It may
/// fail; nothing more is stated.
#[verifier::external_body]
fn new_h264_encoder() -> (res: Result<openh264::encoder::Encoder, openh264::Error>) {
    openh264::encoder::Encoder::new()
}

/// The kind of frame the H.264 encoder reports for an encoded picture, one
/// variant per `openh264::encoder::FrameType`.
#[derive(Debug, Clone, Copy, PartialEq, Eq, Structural)]
pub enum H264FrameKind {
    /// Encoder not ready or invalid parameters.
    Invalid,
    /// An IDR frame.
    Idr,
    /// An I frame.
    I,
    /// A P frame.
    P,
    /// A skipped frame.
    Skip,
    /// A frame mixing I and P slices.
    IPMixed,
}

/// `Encoder::encode` of the planar YUV 4:2:0 picture `yuv` (`width` x `height`,
/// wrapped by `YUVBuffer::from_vec`), returning the bitstream (`to_vec`) and
/// the frame type the encoder reported (`frame_type`). Both depend on the
/// encoder's state (earlier frames, forced keyframes), so nothing is stated of
/// them. `from_vec` panics unless both dimensions are even and `yuv` holds
/// exactly `3 * width * height / 2` bytes; the precondition rules that out.
#[verifier::external_body]
fn h264_encode(
    encoder: &mut openh264::encoder::Encoder,
    yuv: Vec<u8>,
    width: usize,
    height: usize,
) -> (res: Result<(Vec<u8>, H264FrameKind), openh264::Error>)
    requires
        width % 2 == 0,
        height % 2 == 0,
        yuv@.len() == 3 * (width * height) / 2,
{
    let buffer = openh264::formats::YUVBuffer::from_vec(yuv, width, height);
    let bitstream = encoder.encode(&buffer)?;
    let kind = match bitstream.frame_type() {
        openh264::encoder::FrameType::Invalid => H264FrameKind::Invalid,
        openh264::encoder::FrameType::IDR => H264FrameKind::Idr,
        openh264::encoder::FrameType::I => H264FrameKind::I,
        openh264::encoder::FrameType::P => H264FrameKind::P,
        openh264::encoder::FrameType::Skip => H264FrameKind::Skip,
        openh264::encoder::FrameType::IPMixed => H264FrameKind::IPMixed,
    };
    Ok((bitstream.to_vec(), kind))
}

/// The WebRTC frame type of an encoded picture: a keyframe when the encoder
/// made an IDR or I frame, a delta frame otherwise.
pub fn webrtc_frame_type(kind: H264FrameKind) -> (t: WebRTCFrameType)
    ensures
        (t == WebRTCFrameType::Keyframe) <==> (kind == H264FrameKind::Idr || kind
            == H264FrameKind::I),
{
    match kind {
        H264FrameKind::Idr | H264FrameKind::I => WebRTCFrameType::Keyframe,
        _ => WebRTCFrameType::Delta,
    }
}

/// `Encoder::force_intra_frame`: the next encoded frame is an IDR frame.
#[verifier::external_body]
fn h264_force_intra_frame(encoder: &mut openh264::encoder::Encoder) {
    encoder.force_intra_frame()
}

/// The `Display` text of an openh264 error (`ToString`). Not stated.
#[verifier::external_body]
fn h264_error_text(e: &openh264::Error) -> (s: String) {
    e.to_string()
}

/// `prefix` followed by the text of `e`.
fn h264_error_message(prefix: &str, e: &openh264::Error) -> (s: String)
    ensures
        s@.len() >= prefix@.len(),
        s@.subrange(0, prefix@.len() as int) == prefix@,
{
    let detail = h264_error_text(e);
    let msg = prefix.to_string().concat(detail.as_str());
    assert(msg@.subrange(0, prefix@.len() as int) =~= prefix@);
    msg
}

/// The YUV 4:2:0 input the encoder receives for a frame: RGB8 frames are
/// converted, other frames are taken as YUV 4:2:0 already.
pub open spec fn encoder_input_of(frame: CameraFrame) -> Seq<u8> {
    if frame.format@ == rgb8_name() {
        yuv420_of(frame.data@, frame.width as int, frame.height as int)
    } else {
        frame.data@
    }
}

/// A frame can be handed to an encoder working at `width` x `height`: its
/// pixels convert (even dimensions, three bytes per pixel for RGB8) to exactly
/// one YUV 4:2:0 picture of the encoder's size, which must itself be even.
pub open spec fn encodable(frame: CameraFrame, width: u32, height: u32) -> bool {
    &&& width % 2 == 0
    &&& height % 2 == 0
    &&& frame.format@ == rgb8_name() ==> {
        &&& frame.width == 0 || frame.height == 0 || (frame.width % 2 == 0 && frame.height % 2
            == 0)
        &&& 3 * (frame.width * frame.height) <= frame.data@.len()
    }
    &&& encoder_input_of(frame).len() == 3 * (width * height) / 2
}

/// H.264 encoder for WebRTC streaming
pub struct H264WebRTCEncoder {
    encoder: openh264::encoder::Encoder,
    width: u32,
    height: u32,
    frame_count: u64,
}

impl H264WebRTCEncoder {
    /// Width of the pictures this encoder produces.
    pub closed spec fn spec_width(&self) -> u32 {
        self.width
    }

    /// Height of the pictures this encoder produces.
    pub closed spec fn spec_height(&self) -> u32 {
        self.height
    }

    /// Number of frames encoded so far.
    pub closed spec fn spec_frame_count(&self) -> u64 {
        self.frame_count
    }

    /// Create a new H.264 encoder for WebRTC
    pub fn new(width: u32, height: u32) -> (res: Result<Self, String>)
        ensures
            res matches Ok(e) ==> e.spec_width() == width && e.spec_height() == height
                && e.spec_frame_count() == 0,
            res matches Err(msg) ==> msg@.subrange(0, "Failed to create H.264 encoder: "@.len() as int)
                == "Failed to create H.264 encoder: "@,
    {
        match new_h264_encoder() {
            Ok(encoder) => Ok(Self { encoder, width, height, frame_count: 0 }),
            Err(e) => Err(h264_error_message("Failed to create H.264 encoder: ", &e)),
        }
    }

    /// The YUV 4:2:0 picture handed to the encoder for `frame`.
    pub fn encoder_input(frame: &CameraFrame) -> (yuv: Vec<u8>)
        requires
            frame.format@ == rgb8_name() ==> {
                &&& frame.width == 0 || frame.height == 0 || (frame.width % 2 == 0 && frame.height
                    % 2 == 0)
                &&& 3 * (frame.width * frame.height) <= frame.data@.len()
            },
        ensures
            yuv@ == encoder_input_of(*frame),
    {
        let rgb8 = "RGB8".to_string();
        if frame.format == rgb8 {
            rgb_to_yuv420(frame.data.as_slice(), frame.width, frame.height)
        } else {
            frame.data.clone()
        }
    }

    /// Encode a frame to H.264 access unit
    pub fn encode_frame(&mut self, frame: &CameraFrame) -> (res: Result<EncodedFrame, String>)
        requires
            encodable(*frame, old(self).spec_width(), old(self).spec_height()),
            old(self).spec_frame_count() < u64::MAX,
        ensures
            final(self).spec_width() == old(self).spec_width(),
            final(self).spec_height() == old(self).spec_height(),
            match res {
                Ok(ef) => {
                    &&& ef.timestamp == frame.timestamp as u64
                    &&& ef.width == old(self).spec_width()
                    &&& ef.height == old(self).spec_height()
                    &&& final(self).spec_frame_count() == old(self).spec_frame_count() + 1
                },
                Err(msg) => {
                    &&& final(self).spec_frame_count() == old(self).spec_frame_count()
                    &&& msg@.subrange(0, "H.264 encoding failed: "@.len() as int)
                        == "H.264 encoding failed: "@
                },
            },
    {
        let yuv_data = Self::encoder_input(frame);
        let encoded = h264_encode(
            &mut self.encoder,
            yuv_data,
            self.width as usize,
            self.height as usize,
        );
        match encoded {
            Err(e) => Err(h264_error_message("H.264 encoding failed: ", &e)),
            Ok((data, kind)) => {
                self.frame_count = self.frame_count + 1;
                let frame_type = webrtc_frame_type(kind);
                Ok(
                    EncodedFrame {
                        data,
                        timestamp: frame.timestamp as u64,
                        frame_type,
                        width: self.width,
                        height: self.height,
                    },
                )
            },
        }
    }

    /// Force next frame to be keyframe
    pub fn force_keyframe(&mut self)
        ensures
            final(self).spec_width() == old(self).spec_width(),
            final(self).spec_height() == old(self).spec_height(),
            final(self).spec_frame_count() == old(self).spec_frame_count(),
    {
        h264_force_intra_frame(&mut self.encoder);
    }
}

/// Encode one black placeholder picture of the configured size with a fresh
/// encoder; `None` when the encoder could not be created or failed.
pub fn create_encoded_frame(config: &StreamConfig) -> (res: Option<Vec<u8>>)
    requires
        config.width % 2 == 0,
        config.height % 2 == 0,
        config.width * config.height <= u32::MAX,
        config.width * config.height + 2 * ((config.width / 2) * (config.height / 2))
            <= usize::MAX,
{
    let yuv = black_frame_yuv420(config.width, config.height);
    proof {
        let w = config.width as int;
        let h = config.height as int;
        assert(w * h + 2 * ((w / 2) * (h / 2)) == 3 * (w * h) / 2) by (nonlinear_arith)
            requires
                w % 2 == 0,
                h % 2 == 0,
                w >= 0,
                h >= 0,
        ;
    }
    let mut encoder = match new_h264_encoder() {
        Ok(e) => e,
        Err(_) => {
            return None;
        },
    };
    match h264_encode(&mut encoder, yuv, config.width as usize, config.height as usize) {
        Ok((data, _)) => Some(data),
        Err(_) => None,
    }
}

/// Convert camera frame to WebRTC-compatible format. Frames are passed through
/// unchanged whatever the configured size (no resizing is done).
pub fn prepare_frame_for_webrtc(frame: &CameraFrame, config: &StreamConfig) -> (res: Result<
    Vec<u8>,
    String,
>)
    ensures
        res matches Ok(d) && d@ == frame.data@,
{
    Ok(frame.data.clone())
}

/// The number of samples in 20 ms of audio at `sample_rate` Hz: the rate
/// divided by 50, rounded toward zero, taken as a `u32` (wrapping for a
/// negative rate).
pub open spec fn twenty_ms_samples(sample_rate: i32) -> u32 {
    if sample_rate >= 0 {
        (sample_rate / 50) as u32
    } else {
        (-((-sample_rate) / 50)) as u32
    }
}

// ---------------------------------------------------------------------------
// Streamer state
// ---------------------------------------------------------------------------

/// WebRTC streaming manager: the state a stream keeps between calls.
pub struct WebRTCStreamer {
    config: StreamConfig,
    is_streaming: bool,
    stream_id: String,
    h264_packetizer: Option<H264RTPPacketizer>,
    opus_packetizer: Option<OpusRTPPacketizer>,
}

impl WebRTCStreamer {
    /// The stream's configuration.
    pub closed spec fn spec_config(&self) -> StreamConfig {
        self.config
    }

    /// Whether the stream runs.
    pub closed spec fn spec_streaming(&self) -> bool {
        self.is_streaming
    }

    /// The stream's identifier.
    pub closed spec fn spec_stream_id(&self) -> Seq<char> {
        self.stream_id@
    }

    /// The H.264 packetizer, once initialized.
    pub closed spec fn spec_h264(&self) -> Option<H264RTPPacketizer> {
        self.h264_packetizer
    }

    /// The Opus packetizer, once initialized.
    pub closed spec fn spec_opus(&self) -> Option<OpusRTPPacketizer> {
        self.opus_packetizer
    }

    /// Create a new WebRTC streamer
    pub fn new(stream_id: String, config: StreamConfig) -> (s: Self)
        ensures
            s.spec_config() == config,
            !s.spec_streaming(),
            s.spec_stream_id() == stream_id@,
            s.spec_h264() is None,
            s.spec_opus() is None,
    {
        Self {
            config,
            is_streaming: false,
            stream_id,
            h264_packetizer: None,
            opus_packetizer: None,
        }
    }

    /// The stream's identifier.
    pub fn stream_id(&self) -> (s: &str)
        ensures
            s@ == self.spec_stream_id(),
    {
        self.stream_id.as_str()
    }

    /// Start streaming camera frames. Fails when the stream already runs.
    pub fn start_streaming(&mut self, device_id: String) -> (res: Result<(), String>)
        ensures
            final(self).spec_config() == old(self).spec_config(),
            final(self).spec_stream_id() == old(self).spec_stream_id(),
            final(self).spec_h264() == old(self).spec_h264(),
            final(self).spec_opus() == old(self).spec_opus(),
            final(self).spec_streaming(),
            res is Err <==> old(self).spec_streaming(),
            res matches Err(msg) ==> msg@ == "Stream already active"@,
    {
        if self.is_streaming {
            return Err("Stream already active".to_string());
        }
        self.is_streaming = true;
        Ok(())
    }

    /// Stop streaming; stopping a stopped stream is not an error.
    pub fn stop_streaming(&mut self) -> (res: Result<(), String>)
        ensures
            final(self).spec_config() == old(self).spec_config(),
            final(self).spec_stream_id() == old(self).spec_stream_id(),
            final(self).spec_h264() == old(self).spec_h264(),
            final(self).spec_opus() == old(self).spec_opus(),
            !final(self).spec_streaming(),
            res is Ok,
    {
        self.is_streaming = false;
        Ok(())
    }

    /// Check if currently streaming
    pub fn is_streaming(&self) -> (b: bool)
        ensures
            b == self.spec_streaming(),
    {
        self.is_streaming
    }

    /// Get current stream configuration
    pub fn get_config(&self) -> (c: StreamConfig)
        ensures
            c == self.spec_config(),
    {
        self.config
    }

    /// Update stream configuration
    pub fn update_config(&mut self, config: StreamConfig) -> (res: Result<(), String>)
        ensures
            final(self).spec_config() == config,
            final(self).spec_streaming() == old(self).spec_streaming(),
            final(self).spec_stream_id() == old(self).spec_stream_id(),
            final(self).spec_h264() == old(self).spec_h264(),
            final(self).spec_opus() == old(self).spec_opus(),
            res is Ok,
    {
        self.config = config;
        Ok(())
    }

    /// Initialize H.264 RTP packetizer
    pub fn init_h264_packetizer(&mut self, mtu: usize)
        ensures
            final(self).spec_config() == old(self).spec_config(),
            final(self).spec_streaming() == old(self).spec_streaming(),
            final(self).spec_stream_id() == old(self).spec_stream_id(),
            final(self).spec_opus() == old(self).spec_opus(),
            final(self).spec_h264() matches Some(p) && p.mtu_budget() == (if mtu < 1200 {
                mtu
            } else {
                1200
            }) && p.next_sequence() == 0,
    {
        self.h264_packetizer = Some(H264RTPPacketizer::new(mtu));
    }

    /// Initialize Opus RTP packetizer
    pub fn init_opus_packetizer(&mut self)
        ensures
            final(self).spec_config() == old(self).spec_config(),
            final(self).spec_streaming() == old(self).spec_streaming(),
            final(self).spec_stream_id() == old(self).spec_stream_id(),
            final(self).spec_h264() == old(self).spec_h264(),
            final(self).spec_opus() matches Some(p) && p.next_sequence() == 0
                && p.next_timestamp() == 0,
    {
        self.opus_packetizer = Some(OpusRTPPacketizer::new());
    }

    /// Packetize H.264 frame into RTP payloads
    pub fn packetize_h264_frame(&mut self, frame: &EncodedFrame) -> (res: Result<
        Vec<RtpPayload>,
        String,
    >)
        requires
            old(self).spec_h264() matches Some(p) ==> packetizable(
                p.mtu_budget() as int,
                frame.data@,
            ),
        ensures
            final(self).spec_config() == old(self).spec_config(),
            final(self).spec_streaming() == old(self).spec_streaming(),
            final(self).spec_stream_id() == old(self).spec_stream_id(),
            final(self).spec_opus() == old(self).spec_opus(),
            old(self).spec_h264() is None ==> {
                &&& res matches Err(msg) && msg@ == "H.264 packetizer not initialized"@
                &&& final(self).spec_h264() is None
            },
            old(self).spec_h264() matches Some(p) ==> {
                &&& final(self).spec_h264() matches Some(q) && q.mtu_budget() == p.mtu_budget()
                    && (res matches Ok(v) ==> q.next_sequence() == seq_after(
                    p.next_sequence() as int,
                    v@.len() as int,
                )) && (res is Err ==> q.next_sequence() == p.next_sequence())
                &&& res matches Ok(v) ==> crate::webrtc::rtp::payloads_match(
                    v@,
                    crate::webrtc::rtp::rtp_packets(frame.data@, p.mtu_budget() as int),
                    frame.timestamp,
                    p.next_sequence() as int,
                )
                &&& res is Err <==> crate::webrtc::rtp::annexb_units(frame.data@, 0).len() == 0
                &&& res matches Err(msg) ==> msg@ == crate::webrtc::rtp::no_units_message()
            },
    {
        match &mut self.h264_packetizer {
            Some(p) => p.packetize(frame.data.as_slice(), frame.timestamp),
            None => Err("H.264 packetizer not initialized".to_string()),
        }
    }

    /// Packetize Opus packet into RTP payload; the sample count is that of a
    /// 20 ms frame at the packet's sample rate.
    pub fn packetize_opus_packet(&mut self, packet: &WebRTCAudioPacket) -> (res: Result<
        RtpPayload,
        String,
    >)
        ensures
            final(self).spec_config() == old(self).spec_config(),
            final(self).spec_streaming() == old(self).spec_streaming(),
            final(self).spec_stream_id() == old(self).spec_stream_id(),
            final(self).spec_h264() == old(self).spec_h264(),
            old(self).spec_opus() is None ==> {
                &&& res matches Err(msg) && msg@ == "Opus packetizer not initialized"@
                &&& final(self).spec_opus() is None
            },
            old(self).spec_opus() matches Some(p) ==> {
                &&& res matches Ok(r) && r.data@ == packet.data@ && r.timestamp
                    == p.next_timestamp() && r.sequence_number == p.next_sequence() && r.marker
                &&& final(self).spec_opus() matches Some(q) && q.next_sequence() == seq_after(
                    p.next_sequence() as int,
                    1,
                ) && q.next_timestamp() == vstd::wrapping::u64_specs::wrapping_add(
                    p.next_timestamp(),
                    twenty_ms_samples(packet.sample_rate) as u64,
                )
            },
    {
        match &mut self.opus_packetizer {
            Some(p) => {
                let samples = (packet.sample_rate / 50) as u32;
                p.packetize(packet.data.as_slice(), samples)
            },
            None => Err("Opus packetizer not initialized".to_string()),
        }
    }

    /// Get stream statistics; `subscribers` is the number of frame subscribers.
    pub fn get_stats(&self, subscribers: usize) -> (s: StreamStats)
        ensures
            s.stream_id@ == self.spec_stream_id(),
            s.is_active == self.spec_streaming(),
            s.target_bitrate == self.spec_config().bitrate,
            s.current_fps == (if self.spec_streaming() {
                self.spec_config().max_fps
            } else {
                0
            }),
            s.resolution == (self.spec_config().width, self.spec_config().height),
            s.codec == self.spec_config().codec,
            s.subscribers == subscribers,
    {
        let config = self.get_config();
        let is_active = self.is_streaming();
        StreamStats {
            stream_id: self.stream_id.clone(),
            is_active,
            target_bitrate: config.bitrate,
            current_fps: if is_active {
                config.max_fps
            } else {
                0
            },
            resolution: (config.width, config.height),
            codec: config.codec,
            subscribers,
        }
    }
}

} // verus!
