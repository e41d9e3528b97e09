use crabcamera::types::CameraFrame;
use crabcamera::webrtc::rtp::{H264RTPPacketizer, OpusRTPPacketizer};
use crabcamera::webrtc::streaming::{
    black_frame_yuv420, create_encoded_frame, prepare_frame_for_webrtc, schedule_frame,
    EncodedFrame, H264WebRTCEncoder, StreamConfig, VideoCodec, WebRTCAudioPacket,
    WebRTCFrameType, WebRTCStreamer,
};
use crabcamera::webrtc::yuv::rgb_to_yuv420;
use crabcamera::webrtc::streaming::{webrtc_frame_type, H264FrameKind};

#[test]
fn test_webrtc_streamer_creation() {
    let config = StreamConfig::default();
    let streamer = WebRTCStreamer::new("test_stream".to_string(), config);

    assert!(!streamer.is_streaming());
    assert_eq!(streamer.stream_id(), "test_stream");
}

#[test]
fn test_start_stop_streaming() {
    let config = StreamConfig::default();
    let mut streamer = WebRTCStreamer::new("test_stream".to_string(), config);

    // Start streaming
    let result = streamer.start_streaming("mock_camera".to_string());
    assert!(result.is_ok());
    assert!(streamer.is_streaming());

    // Stop streaming
    let result = streamer.stop_streaming();
    assert!(result.is_ok());
}

#[test]
fn test_config_update() {
    let config = StreamConfig::default();
    let mut streamer = WebRTCStreamer::new("test_stream".to_string(), config);

    let new_config = StreamConfig {
        bitrate: 4_000_000,
        max_fps: 60,
        width: 1920,
        height: 1080,
        codec: VideoCodec::VP9,
    };

    let result = streamer.update_config(new_config.clone());
    assert!(result.is_ok());

    let current_config = streamer.get_config();
    assert_eq!(current_config.bitrate, 4_000_000);
    assert_eq!(current_config.max_fps, 60);
}

#[test]
fn test_stream_stats() {
    let config = StreamConfig::default();
    let streamer = WebRTCStreamer::new("test_stream".to_string(), config);

    let stats = streamer.get_stats(0);
    assert_eq!(stats.stream_id, "test_stream");
    assert!(!stats.is_active);
    assert_eq!(stats.subscribers, 0);

    // One frame subscriber
    let stats = streamer.get_stats(1);
    assert_eq!(stats.subscribers, 1);
}

#[test]
fn starting_twice_is_refused() {
    let mut streamer = WebRTCStreamer::new("s".to_string(), StreamConfig::default());
    assert!(streamer.start_streaming("cam".to_string()).is_ok());
    assert_eq!(
        streamer.start_streaming("cam".to_string()),
        Err("Stream already active".to_string())
    );
    let stats = streamer.get_stats(2);
    assert!(stats.is_active);
    assert_eq!(stats.current_fps, 30);
    assert_eq!(stats.resolution, (1280, 720));
    assert_eq!(stats.target_bitrate, 2_000_000);
    assert_eq!(stats.codec, VideoCodec::H264);
    assert!(streamer.stop_streaming().is_ok());
    assert!(streamer.stop_streaming().is_ok());
    assert!(!streamer.is_streaming());
}

#[test]
fn packetizers_must_be_initialized() {
    let mut streamer = WebRTCStreamer::new("s".to_string(), StreamConfig::default());
    let frame = EncodedFrame {
        data: vec![0, 0, 0, 1, 0x65, 1, 2, 3],
        timestamp: 90,
        frame_type: WebRTCFrameType::Keyframe,
        width: 2,
        height: 2,
    };
    assert_eq!(
        streamer.packetize_h264_frame(&frame).err(),
        Some("H.264 packetizer not initialized".to_string())
    );
    let packet = WebRTCAudioPacket { data: vec![9, 8, 7], timestamp: 0, sample_rate: 48000, channels: 2 };
    assert_eq!(
        streamer.packetize_opus_packet(&packet).err(),
        Some("Opus packetizer not initialized".to_string())
    );

    streamer.init_h264_packetizer(1500);
    let payloads = streamer.packetize_h264_frame(&frame).expect("one NAL unit");
    assert_eq!(payloads.len(), 1);
    assert_eq!(payloads[0].data, vec![0x65, 1, 2, 3]);
    assert!(payloads[0].marker);
    assert_eq!(payloads[0].timestamp, 90);

    streamer.init_opus_packetizer();
    let p0 = streamer.packetize_opus_packet(&packet).expect("opus");
    let p1 = streamer.packetize_opus_packet(&packet).expect("opus");
    assert_eq!(p0.data, vec![9, 8, 7]);
    assert_eq!(p0.timestamp, 0);
    assert_eq!(p1.timestamp, 960);
    assert_eq!(p1.sequence_number, 1);
}

#[test]
fn h264_single_nal_and_fragmentation() {
    let mut p = H264RTPPacketizer::new(1500);
    // Two NAL units with 3- and 4-byte start codes.
    let au = vec![0, 0, 1, 0x67, 0xAA, 0, 0, 0, 1, 0x68, 0xBB];
    let out = p.packetize(&au, 1000).expect("packets");
    assert_eq!(out.len(), 2);
    assert_eq!(out[0].data, vec![0x67, 0xAA]);
    assert!(!out[0].marker, "only the access unit's last packet is marked");
    assert_eq!(out[1].data, vec![0x68, 0xBB]);
    assert!(out[1].marker);
    assert_eq!(out[0].sequence_number, 0);
    assert_eq!(out[1].sequence_number, 1);

    // A NAL unit bigger than the budget is split into FU-A fragments.
    let mut small = H264RTPPacketizer::new(16);
    let mut au = vec![0, 0, 0, 1, 0x65];
    au.extend(1u8..=10);
    let frags = small.packetize(&au, 5).expect("fragments");
    assert!(frags.len() >= 2);
    let fu_indicator = (0x65 & 0xE0) | 28;
    assert!(frags.iter().all(|f| f.data[0] == fu_indicator && f.data.len() + 12 <= 16));
    assert_eq!(frags[0].data[1], 0x80 | 5);
    assert_eq!(frags[frags.len() - 1].data[1], 0x40 | 5);
    let mut rebuilt = vec![0x65];
    for f in &frags {
        rebuilt.extend_from_slice(&f.data[2..]);
    }
    assert_eq!(rebuilt, au[4..].to_vec());
    assert!(frags[frags.len() - 1].marker);
    assert!(frags[..frags.len() - 1].iter().all(|f| !f.marker));
}

#[test]
fn h264_without_start_code_is_refused() {
    let mut p = H264RTPPacketizer::new(1200);
    assert!(p.packetize(&[1, 2, 3, 4], 0).is_err());
    assert!(p.packetize(&[], 0).is_err());
}

#[test]
fn opus_sequence_and_timestamp_wrap() {
    let mut p = OpusRTPPacketizer::new();
    let a = p.packetize(&[1, 2], 960).expect("opus");
    let b = p.packetize(&[3], 960).expect("opus");
    assert_eq!((a.sequence_number, a.timestamp), (0, 0));
    assert_eq!((b.sequence_number, b.timestamp), (1, 960));
    assert!(a.marker && b.marker);
}

#[test]
fn rgb_to_yuv420_of_uniform_colours() {
    // 2x2 white: Y = 235, U = V = 128
    let white = vec![255u8; 12];
    assert_eq!(rgb_to_yuv420(&white, 2, 2), vec![235, 235, 235, 235, 128, 128]);
    // 2x2 black: Y = 16
    let black = vec![0u8; 12];
    assert_eq!(rgb_to_yuv420(&black, 2, 2), vec![16, 16, 16, 16, 128, 128]);
    assert!(rgb_to_yuv420(&[], 0, 0).is_empty());
}

#[test]
fn frame_schedule_keyframes_and_timestamps() {
    let config = StreamConfig::default();
    let s = schedule_frame(10, 0, &config);
    assert_eq!(s.frame_type, WebRTCFrameType::Delta);
    assert_eq!(s.interval_ms, 33);
    assert_eq!(s.timestamp, 330);
    assert_eq!(s.last_keyframe, 0);
    let k = schedule_frame(30, 0, &config);
    assert_eq!(k.frame_type, WebRTCFrameType::Keyframe);
    assert_eq!(k.last_keyframe, 30);
}

#[test]
fn black_frame_layout() {
    let yuv = black_frame_yuv420(4, 2);
    assert_eq!(yuv, vec![0, 0, 0, 0, 0, 0, 0, 0, 128, 128, 128, 128]);
}

#[test]
fn prepared_frames_pass_through() {
    let frame = CameraFrame::new(vec![1, 2, 3], 1, 1, "d".to_string());
    assert_eq!(prepare_frame_for_webrtc(&frame, &StreamConfig::default()), Ok(vec![1, 2, 3]));
}

#[test]
fn h264_encoder_produces_annexb_stream() {
    let mut encoder = H264WebRTCEncoder::new(16, 16).expect("encoder");
    let frame = CameraFrame::new(vec![90u8; 16 * 16 * 3], 16, 16, "cam".to_string());
    let encoded = encoder.encode_frame(&frame).expect("encoded");
    assert_eq!((encoded.width, encoded.height), (16, 16));
    assert_eq!(encoded.frame_type, WebRTCFrameType::Keyframe);
    assert!(encoded.data.len() > 4);
    assert_eq!(&encoded.data[0..3], &[0, 0, 0]);
    encoder.force_keyframe();
    let again = encoder.encode_frame(&frame).expect("encoded");
    assert_eq!(again.frame_type, WebRTCFrameType::Keyframe);
}

#[test]
fn black_placeholder_frame_encodes() {
    let config = StreamConfig { bitrate: 500_000, max_fps: 30, width: 32, height: 32, codec: VideoCodec::H264 };
    let data = create_encoded_frame(&config).expect("encoded placeholder");
    assert!(data.starts_with(&[0, 0, 0, 1]) || data.starts_with(&[0, 0, 1]));
}

#[test]
fn frame_kinds_map_to_keyframes_and_deltas() {
    assert_eq!(webrtc_frame_type(H264FrameKind::Idr), WebRTCFrameType::Keyframe);
    assert_eq!(webrtc_frame_type(H264FrameKind::I), WebRTCFrameType::Keyframe);
    for kind in [H264FrameKind::P, H264FrameKind::Skip, H264FrameKind::IPMixed, H264FrameKind::Invalid] {
        assert_eq!(webrtc_frame_type(kind), WebRTCFrameType::Delta);
    }
}
