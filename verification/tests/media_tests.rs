use quicrtc::codecs::{CodecRegistry, H264Codec, H264Config, OpusCodec};
use quicrtc::error::{ErrorCategory, MediaError, QuicRtcError};
use quicrtc::tracks::VideoFrame;
use quicrtc::video::{calculate_frame_memory, calculate_letterbox, pixel_format_to_texture_format, VideoPixelFormat, VideoResolution};

#[test]
fn test_error_categories() {
    let io_error = MediaError::Io {
        source: std::io::Error::new(std::io::ErrorKind::NotFound, "file not found"),
    };
    assert_eq!(io_error.category(), ErrorCategory::System);
    assert!(io_error.is_recoverable());

    let codec_error = MediaError::CodecInitializationFailed {
        codec: "H.264".to_string(),
        reason: "Hardware not available".to_string(),
    };
    assert_eq!(codec_error.category(), ErrorCategory::Codec);
    assert!(!codec_error.is_recoverable());
}

#[test]
fn test_error_display() {
    let error = MediaError::InvalidFrameData { expected: 1024, actual: 512 };
    assert_eq!(error.message(), "Invalid frame data: expected 1024 bytes, got 512");
}

#[test]
fn test_error_from_io() {
    let io_error = std::io::Error::new(std::io::ErrorKind::PermissionDenied, "access denied");
    let media_error = MediaError::from(io_error);

    match media_error {
        MediaError::Io { .. } => (),
        _ => panic!("Expected Io error variant"),
    }
}

#[test]
fn test_memory_calculation() {
    let res = VideoResolution::hd720();

    assert_eq!(calculate_frame_memory(res, VideoPixelFormat::RGB24), (1280 * 720 * 3) as usize);
    assert_eq!(calculate_frame_memory(res, VideoPixelFormat::RGBA32), (1280 * 720 * 4) as usize);
}

#[test]
fn memory_for_each_format() {
    let res = VideoResolution::new(640, 480);
    let px = 640 * 480;
    assert_eq!(calculate_frame_memory(res, VideoPixelFormat::YUV420P), px * 3 / 2);
    assert_eq!(calculate_frame_memory(res, VideoPixelFormat::NV12), px * 3 / 2);
    assert_eq!(calculate_frame_memory(res, VideoPixelFormat::YUV422), px * 2);
    assert_eq!(calculate_frame_memory(res, VideoPixelFormat::BGR24), px * 3);
    assert_eq!(calculate_frame_memory(res, VideoPixelFormat::MJPEG), px * 4);
    assert_eq!(pixel_format_to_texture_format(VideoPixelFormat::H264), "RGBA8");
    assert_eq!(pixel_format_to_texture_format(VideoPixelFormat::BGR24), "BGR8");
}

#[test]
fn test_codec_info_real_vs_placeholder() {
    let opus = OpusCodec::new().unwrap();
    let h264 = H264Codec::new().unwrap();

    let opus_info = opus.get_codec_info();
    assert_eq!(opus_info.name, "Opus");
    assert_eq!(opus_info.mime_type, "audio/opus");
    assert_eq!(opus_info.sample_rate, Some(48000));
    assert_eq!(opus_info.channels, Some(2));

    let h264_info = h264.get_codec_info();
    assert_eq!(h264_info.name, "H.264");
    assert_eq!(h264_info.mime_type, "video/h264");
    assert!(h264_info.sample_rate.is_none());
    assert!(h264_info.channels.is_none());
}

#[test]
fn test_h264_codec_real_implementation() {
    let h264 = H264Codec::new().unwrap();

    let video_frame = VideoFrame {
        width: 640,
        height: 480,
        data: vec![128; 640 * 480 * 3],
        timestamp: 12345,
        is_keyframe: true,
    };

    let encoded = h264.encode(&video_frame).unwrap();
    assert!(encoded.len() > 20, "Real H.264 encoding should produce substantial output");
    assert_ne!(&encoded[0..4], b"H264", "Should not be placeholder format");
}

#[test]
fn h264_encoding_gives_a_bitstream_not_the_image() {
    let h264 = H264Codec::with_config(H264Config { width: 16, height: 16, bitrate: 100_000, framerate: 30 }).unwrap();
    let mut data = Vec::new();
    for i in 0..(16 * 16 * 3) {
        data.push((i % 251) as u8);
    }
    let frame = VideoFrame { width: 16, height: 16, data, timestamp: 0, is_keyframe: true };
    let first = h264.encode(&frame).unwrap();
    let second = h264.encode(&frame).unwrap();
    assert_eq!(first, second);
    assert_eq!(&first[0..4], &[0u8, 0, 0, 1]);
    assert_ne!(first.len(), 16 * 16 * 3 / 2);
}

#[test]
fn h264_encoding_of_a_wrong_size_is_refused() {
    let h264 = H264Codec::new().unwrap();
    let frame = VideoFrame { width: 320, height: 240, data: vec![0; 10], timestamp: 0, is_keyframe: false };
    match h264.encode(&frame) {
        Err(QuicRtcError::InvalidData { reason }) => {
            assert_eq!(reason, "Frame size mismatch: expected 640x480, got 320x240")
        }
        other => panic!("unexpected {:?}", other.is_ok()),
    }
}

#[test]
fn h264_decode_of_nothing_is_refused() {
    let h264 = H264Codec::new().unwrap();
    match h264.decode(&[]) {
        Err(e) => assert_eq!(e.error_code(), "INVALID_DATA"),
        Ok(_) => panic!("expected an error"),
    }
}

#[test]
fn error_messages_and_categories() {
    let e = MediaError::UnsupportedPlatform { platform: "x".to_string() };
    assert_eq!(e.message(), "Unsupported platform: x");
    assert_eq!(e.category(), ErrorCategory::Platform);
    assert!(!e.is_recoverable());
    let e = MediaError::InvalidConfiguration { message: "bad".to_string() };
    assert_eq!(e.category(), ErrorCategory::Configuration);
}

#[test]
fn resolution_helpers() {
    let r = VideoResolution::new(1920, 1080);
    assert_eq!(r.pixel_count(), 2_073_600);
    assert_eq!(r.total_pixels(), 2_073_600);
    assert_eq!(VideoResolution::hd720(), VideoResolution::new(1280, 720));
    assert_eq!(VideoPixelFormat::RGBA32.bytes_per_pixel(), Some(4));
    assert_eq!(VideoPixelFormat::MJPEG.bytes_per_pixel(), None);
    assert!(VideoPixelFormat::H264.is_compressed());
    assert!(!VideoPixelFormat::NV12.is_compressed());
}

#[test]
fn test_codec_registry_with_real_implementations() {
    let registry = CodecRegistry::with_defaults().unwrap();

    let available_codecs = registry.list_codecs();
    assert!(available_codecs.contains(&"opus".to_string()));
    assert!(available_codecs.contains(&"h264".to_string()));

    let opus_codec = registry.get_codec("opus").unwrap();
    let h264_codec = registry.get_codec("h264").unwrap();

    let opus_info = opus_codec.get_codec_info();
    let h264_info = h264_codec.get_codec_info();

    assert_eq!(opus_info.mime_type, "audio/opus");
    assert_eq!(h264_info.mime_type, "video/h264");

    let opus_by_mime = registry.get_codec_by_mime_type("audio/opus").unwrap();
    let h264_by_mime = registry.get_codec_by_mime_type("video/h264").unwrap();

    assert_eq!(opus_by_mime.get_codec_info().name, "Opus");
    assert_eq!(h264_by_mime.get_codec_info().name, "H.264");
}

#[test]
fn codec_registry_lookups_miss_on_unknown_names() {
    let registry = CodecRegistry::with_defaults().unwrap();
    assert!(registry.get_codec("vp8").is_none());
    assert!(registry.get_codec_by_mime_type("video/vp8").is_none());
    assert_eq!(registry.list_codecs(), vec!["opus".to_string(), "h264".to_string()]);
    let empty = CodecRegistry::new();
    assert!(empty.list_codecs().is_empty());
}

#[test]
fn test_letterbox_calculation() {
    // Wide source, tall target
    let source = VideoResolution::new(1920, 1080); // 16:9
    let target = VideoResolution::new(1080, 1920); // 9:16

    let (scaled, offset_x, offset_y) = calculate_letterbox(source, target);
    assert_eq!(scaled.width, 1080);
    assert!(scaled.height < 1920);
    assert_eq!(offset_x, 0);
    assert!(offset_y > 0);
}

#[test]
fn letterbox_exact_values() {
    let (scaled, x, y) = calculate_letterbox(VideoResolution::new(1920, 1080), VideoResolution::new(1080, 1920));
    assert_eq!((scaled.width, scaled.height, x, y), (1080, 607, 0, 656));
    // Tall source in a wide target: pillar-boxed.
    let (scaled, x, y) = calculate_letterbox(VideoResolution::new(1080, 1920), VideoResolution::new(1920, 1080));
    assert_eq!((scaled.width, scaled.height, x, y), (607, 1080, 656, 0));
    // Same shape: fills the target.
    let (scaled, x, y) = calculate_letterbox(VideoResolution::new(640, 480), VideoResolution::new(1280, 960));
    assert_eq!((scaled.width, scaled.height, x, y), (1280, 960, 0, 0));
    // No ratio: nothing to show.
    let (scaled, x, y) = calculate_letterbox(VideoResolution::new(0, 0), VideoResolution::new(100, 50));
    assert_eq!((scaled.width, scaled.height, x, y), (0, 50, 50, 0));
}

#[test]
fn opus_frames_must_match_the_configuration() {
    let opus = OpusCodec::new().unwrap();
    assert!(opus.check_frame(48000, 2).is_ok());
    match opus.check_frame(44100, 1) {
        Err(QuicRtcError::InvalidData { reason }) => assert_eq!(reason, "Sample rate mismatch: expected 48000, got 44100"),
        other => panic!("expected InvalidData, got {:?}", other),
    }
    match opus.check_frame(48000, 1) {
        Err(QuicRtcError::InvalidData { reason }) => assert_eq!(reason, "Channel count mismatch: expected 2, got 1"),
        other => panic!("expected InvalidData, got {:?}", other),
    }
    assert!(opus.check_packet(&[1]).is_ok());
    match opus.check_packet(&[]) {
        Err(QuicRtcError::InvalidData { reason }) => assert_eq!(reason, "Empty Opus data"),
        other => panic!("expected InvalidData, got {:?}", other),
    }
}

#[test]
fn h264_results_for_each_outcome() {
    assert_eq!(H264Codec::encoding_result(Ok(vec![0, 0, 1])).unwrap(), vec![0, 0, 1]);
    match H264Codec::encoding_result(Err("bad input".to_string())) {
        Err(QuicRtcError::EncodingFailed { reason }) => assert_eq!(reason, "H.264 encoding failed: bad input"),
        other => panic!("expected EncodingFailed, got {:?}", other),
    }
    let codec = H264Codec::new().unwrap();
    let frame = codec.decoding_result(Ok(true), 77).unwrap();
    assert_eq!((frame.width, frame.height, frame.timestamp), (640, 480, 77));
    assert_eq!(frame.data.len(), 640 * 480 * 4);
    assert!(frame.data.iter().all(|&b| b == 128));
    assert!(frame.is_keyframe);
    match codec.decoding_result(Ok(false), 0) {
        Err(QuicRtcError::DecodingFailed { reason }) => assert_eq!(reason, "H.264 decoder returned no frame"),
        other => panic!("expected DecodingFailed, got {:?}", other),
    }
    match codec.decoding_result(Err("truncated".to_string()), 0) {
        Err(QuicRtcError::DecodingFailed { reason }) => assert_eq!(reason, "H.264 decoding failed: truncated"),
        other => panic!("expected DecodingFailed, got {:?}", other),
    }
}

#[test]
fn h264_decode_refuses_garbage() {
    let codec = H264Codec::new().unwrap();
    match codec.decode(&[0, 0, 0, 1, 0x65, 0xff, 0xff]) {
        Err(QuicRtcError::DecodingFailed { .. }) => {}
        other => panic!("expected DecodingFailed, got {:?}", other),
    }
}

#[test]
fn letterbox_accepts_any_source_size() {
    let (scaled, x, y) = calculate_letterbox(VideoResolution::new(4_000_000_000, 1), VideoResolution::new(1920, 1080));
    assert_eq!((scaled.width, scaled.height, x, y), (1920, 0, 0, 540));
    let (scaled, x, y) = calculate_letterbox(VideoResolution::new(1, u32::MAX), VideoResolution::new(1920, 1080));
    assert_eq!((scaled.width, scaled.height, x, y), (0, 1080, 960, 0));
}
