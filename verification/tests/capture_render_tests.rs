use quicrtc::capture::{
    convert_camera_frame_to_video_frame, create_fallback_frame, get_platform_capture, validate_capture_settings, CameraFrame, CaptureBackend,
    DirectShowCapture, FrameProcessor, FrameProcessorConfig, MockCapture, PlatformCapture, TargetPlatform,
    V4L2Capture, WebRTCCapture,
};
use quicrtc::error::MediaError;
use quicrtc::render::{
    display_change_events, supported_formats, AudioBuffer, SoftwareRenderer, VideoDisplayMode, VideoFrameBuffer, VideoRenderBackend,
    VideoRenderEvent, VideoScalingMode,
};
use quicrtc::tracks::VideoFrame;
use quicrtc::video::{VideoPixelFormat, VideoResolution};

fn frame(ts: u64) -> VideoFrame {
    VideoFrame { width: 2, height: 2, data: vec![0; 6], timestamp: ts, is_keyframe: false }
}

#[test]
fn platform_backends() {
    assert!(get_platform_capture(TargetPlatform::MacOs).is_none());
    assert!(matches!(get_platform_capture(TargetPlatform::Linux), Some(CaptureBackend::V4L2(_))));
    assert!(matches!(get_platform_capture(TargetPlatform::Windows), Some(CaptureBackend::DirectShow(_))));
    assert!(matches!(get_platform_capture(TargetPlatform::Wasm), Some(CaptureBackend::WebRTC(_))));
    assert!(matches!(get_platform_capture(TargetPlatform::Other), Some(CaptureBackend::Mock(_))));
}

#[test]
fn backend_device_names() {
    assert_eq!(V4L2Capture::new().get_devices().unwrap(), vec!["V4L2 Camera".to_string()]);
    assert_eq!(WebRTCCapture::new().get_devices().unwrap().len(), 1);
    assert_eq!(MockCapture::new().get_devices().unwrap().len(), 1);
    let mut windows = get_platform_capture(TargetPlatform::Windows).unwrap();
    assert_eq!(windows.get_devices().unwrap(), vec!["DirectShow Camera".to_string()]);
    assert!(windows.start_capture().is_ok());
    assert!(windows.stop_capture().is_ok());
}

#[test]
fn test_directshow_creation() {
    let capture = DirectShowCapture::new(false);
    assert!(!capture.is_capturing());
}

#[test]
fn test_get_devices() {
    let capture = DirectShowCapture::new(true);
    let result = capture.get_devices();
    assert!(result.is_ok());
}

#[test]
fn test_windows_specific_functionality() {
    let mut capture = DirectShowCapture::new(true);
    let devices = capture.get_devices().unwrap();
    println!("Available DirectShow devices: {:?}", devices);
    assert!(capture.start_capture().is_ok());
    assert!(capture.is_capturing());
    assert!(capture.stop_capture().is_ok());
    assert!(!capture.is_capturing());
}

#[test]
fn directshow_refuses_outside_windows() {
    let mut capture = DirectShowCapture::new(false);
    match capture.start_capture() {
        Err(MediaError::UnsupportedPlatform { platform }) => {
            assert_eq!(platform, "DirectShow only supported on Windows")
        }
        other => panic!("expected UnsupportedPlatform, got {:?}", other),
    }
    assert!(!capture.is_capturing());
    assert!(capture.get_devices().is_err());
    assert!(capture.stop_capture().is_err());

    let mut on_windows = DirectShowCapture::new(true);
    on_windows.start_capture().unwrap();
    assert!(on_windows.is_capturing());
    on_windows.stop_capture().unwrap();
    assert!(!on_windows.is_capturing());
}

#[test]
fn camera_frame_keeps_data_and_size() {
    let cf = CameraFrame {
        data: vec![1, 2, 3, 4],
        width: 2,
        height: 1,
        format: VideoPixelFormat::RGBA32,
        timestamp: std::time::Instant::now(),
    };
    let vf = convert_camera_frame_to_video_frame(cf);
    assert_eq!(vf.data, vec![1, 2, 3, 4]);
    assert_eq!((vf.width, vf.height), (2, 1));
    assert!(vf.is_keyframe);
}

#[test]
fn frame_processor_set_up() {
    let config = FrameProcessorConfig::default();
    assert!(!config.enable_h264_encoding);
    assert_eq!(config.max_buffer_size, 5);
    let p = FrameProcessor::new(config).unwrap();
    assert_eq!(*p.config(), config);
    let with_h264 = FrameProcessorConfig { enable_h264_encoding: true, ..FrameProcessorConfig::default() };
    assert!(FrameProcessor::new(with_h264).is_ok());
}

#[test]
fn capture_settings_are_checked_in_order() {
    let msg = |r: Result<(), MediaError>| match r {
        Err(MediaError::InvalidConfiguration { message }) => message,
        other => panic!("expected InvalidConfiguration, got {:?}", other),
    };
    assert_eq!(msg(validate_capture_settings(VideoResolution::new(0, 480), false, 0)), "Invalid resolution");
    assert_eq!(msg(validate_capture_settings(VideoResolution::new(640, 480), false, 0)), "Invalid framerate");
    assert_eq!(msg(validate_capture_settings(VideoResolution::new(640, 480), true, 0)), "Buffer size must be > 0");
    assert!(validate_capture_settings(VideoResolution::new(640, 480), true, 3).is_ok());
}

#[test]
fn render_enum_defaults() {
    assert_eq!(VideoRenderBackend::default(), VideoRenderBackend::Auto);
    assert_eq!(VideoDisplayMode::default(), VideoDisplayMode::Windowed);
    assert_eq!(VideoScalingMode::default(), VideoScalingMode::LetterBox);
}

#[test]
fn audio_ring_buffer_is_first_in_first_out() {
    let mut b = AudioBuffer::new(8, 0i16);
    assert_eq!(b.capacity(), 8);
    assert_eq!(b.available_read(), 0);
    assert_eq!(b.available_write(), 7);
    assert_eq!(b.write(&[1, 2, 3, 4, 5]), 5);
    let mut out = [0i16; 3];
    assert_eq!(b.read(&mut out, 0), 3);
    assert_eq!(out, [1, 2, 3]);
    // Wraps round the end of the slots.
    assert_eq!(b.write(&[6, 7, 8, 9, 10, 11]), 5);
    assert_eq!(b.available_read(), 7);
    let mut out = [0i16; 7];
    assert_eq!(b.read(&mut out, 0), 7);
    assert_eq!(out, [4, 5, 6, 7, 8, 9, 10]);
}

#[test]
fn audio_ring_buffer_underrun_fills_silence() {
    let mut b = AudioBuffer::new(4, 0u8);
    b.write(&[9]);
    let mut out = [5u8; 3];
    assert_eq!(b.read(&mut out, 0), 1);
    assert_eq!(out, [9, 0, 0]);
    assert_eq!(b.available_read(), 0);
}

#[test]
fn video_frame_buffer_drops_oldest() {
    let mut b = VideoFrameBuffer::new(2);
    assert!(b.is_empty());
    assert!(b.push(frame(1)));
    assert!(b.push(frame(2)));
    assert!(b.push(frame(3)));
    assert_eq!(b.len(), 2);
    assert_eq!(b.dropped_frames(), 1);
    assert_eq!(b.max_size(), 2);
    assert_eq!(b.pop().unwrap().timestamp, 2);
    assert_eq!(b.pop().unwrap().timestamp, 3);
    assert!(b.pop().is_none());
}

#[test]
fn fallback_frame_is_a_moving_pattern() {
    let f = create_fallback_frame(VideoResolution::new(2, 2), 300);
    assert_eq!((f.width, f.height), (2, 2));
    assert!(f.is_keyframe);
    assert_eq!(f.data, vec![44, 44, 44, 45, 44, 45, 44, 45, 45, 45, 45, 46]);
    let next = create_fallback_frame(VideoResolution::new(2, 2), 301);
    assert_eq!(next.data[0], 45);
    assert!(create_fallback_frame(VideoResolution::new(0, 5), 0).data.is_empty());
}

#[test]
fn output_formats_from_device_configurations() {
    let (rates, channels) = supported_formats(&vec![(44100, 48000, 2), (8000, 16000, 1), (96000, 192000, 2)]);
    assert_eq!(rates, vec![8000, 16000, 44100, 48000, 96000]);
    assert_eq!(channels, vec![1, 2]);
    let (rates, channels) = supported_formats(&vec![]);
    assert!(rates.is_empty() && channels.is_empty());
    let (rates, channels) = supported_formats(&vec![(22050, 22050, 258), (1, 2, 6)]);
    assert_eq!(rates, vec![22050]);
    assert_eq!(channels, vec![2, 6]);
}

#[test]
fn software_renderer_refuses_frames_until_initialized() {
    let mut renderer: SoftwareRenderer<&str> = SoftwareRenderer::new().unwrap();
    assert!(!renderer.is_active());
    assert!(renderer.current_config().is_none());
    match renderer.render_frame(&frame(1)) {
        Err(MediaError::InvalidState { message }) => assert_eq!(message, "Renderer not initialized"),
        _ => panic!("expected a refusal"),
    }
    assert_eq!(renderer.frames_rendered(), 0);
    renderer.initialize("first").unwrap();
    assert!(renderer.is_active());
    renderer.render_frame(&frame(2)).unwrap();
    renderer.render_frame(&frame(3)).unwrap();
    assert_eq!(renderer.frames_rendered(), 2);
    assert_eq!(renderer.process_events().unwrap(), true);
    renderer.update_config("second").unwrap();
    assert_eq!(renderer.current_config(), Some(&"second"));
    renderer.shutdown().unwrap();
    assert!(!renderer.is_active());
    assert!(renderer.render_frame(&frame(4)).is_err());
    assert_eq!(renderer.frames_rendered(), 2);
}

#[test]
fn software_renderer_averages_render_times() {
    let mut renderer: SoftwareRenderer<u8> = SoftwareRenderer::new().unwrap();
    renderer.initialize(0).unwrap();
    renderer.record_frame(100).unwrap();
    assert_eq!(renderer.avg_render_nanos(), 50);
    renderer.record_frame(151).unwrap();
    assert_eq!(renderer.avg_render_nanos(), 100);
    assert_eq!(renderer.frames_rendered(), 2);
}

#[test]
fn configuration_changes_show_mode_then_size() {
    let small = VideoResolution::new(640, 480);
    let big = VideoResolution::new(1280, 720);
    assert!(display_change_events(None, VideoDisplayMode::Fullscreen, big).is_empty());
    assert!(display_change_events(Some((VideoDisplayMode::Windowed, small)), VideoDisplayMode::Windowed, small).is_empty());
    let events = display_change_events(Some((VideoDisplayMode::Windowed, small)), VideoDisplayMode::Fullscreen, big);
    assert_eq!(events.len(), 2);
    match &events[0] {
        VideoRenderEvent::DisplayModeChanged { old_mode, new_mode } => {
            assert_eq!(*old_mode, VideoDisplayMode::Windowed);
            assert_eq!(*new_mode, VideoDisplayMode::Fullscreen);
        }
        other => panic!("unexpected {:?}", other),
    }
    match &events[1] {
        VideoRenderEvent::WindowResized { old_size, new_size } => {
            assert_eq!(*old_size, small);
            assert_eq!(*new_size, big);
        }
        other => panic!("unexpected {:?}", other),
    }
    let events = display_change_events(Some((VideoDisplayMode::Windowed, small)), VideoDisplayMode::Windowed, big);
    assert_eq!(events.len(), 1);
    assert!(matches!(events[0], VideoRenderEvent::WindowResized { .. }));
}
