//! Tests of the capture-loop state machine and the detector guard.

use security_cam_client::grayimage::GrayFrame;
use security_cam_client::motiondetection::CaptureState;
use security_cam_client::motiondetection::FrameCommand;
use security_cam_client::motiondetection::MotionDetector;
use security_cam_client::motiondetection::gen_filename;

fn flat(value: u8) -> GrayFrame {
    GrayFrame::from_pixels(8, 8, vec![value; 64])
}

fn with_block(base: u8, block: u8) -> GrayFrame {
    let mut f = flat(base);
    for y in 2..5 {
        for x in 2..5 {
            f.set(x, y, block);
        }
    }
    f
}

#[test]
fn test_start_detection_twice_fails() {
    let mut detector = MotionDetector::new(0, 10);
    assert!(detector.start_detection().is_ok());
    assert!(detector.started);
    let second = detector.start_detection();
    assert!(second.is_err());
    assert_eq!(second.unwrap_err(), "already started");
    assert!(detector.started);
    detector.stop_detection();
    assert!(!detector.started);
    assert!(detector.start_detection().is_ok());
}

#[test]
fn test_capture_failure_reports_error_and_changes_nothing() {
    let mut state = CaptureState::new(10, 0);
    let cmds = state.process_capture(None, 100).expect("no size conflict possible");
    assert_eq!(cmds.len(), 1);
    match &cmds[0] {
        FrameCommand::Error(m) => assert_eq!(m, "failed to capture frame"),
        _ => panic!("expected an error command"),
    }
    assert_eq!(state.framerate_counter, 0);
    assert!(state.frame3.is_none());
}

#[test]
fn test_undecodable_buffer_reports_error() {
    let mut state = CaptureState::new(10, 0);
    let garbage: Vec<u8> = vec![1, 2, 3, 4];
    let cmds = state.process_capture(Some(&garbage), 100).expect("nothing decoded");
    assert_eq!(cmds.len(), 1);
    assert!(matches!(cmds[0], FrameCommand::Error(_)));
    assert!(state.frame3.is_none());
    assert_eq!(state.framerate_counter, 1);
}

#[test]
fn test_decoded_jpeg_enters_window() {
    // encode a real 8x8 JPEG and check the decoded frame's size, which
    // fails if the decoder were handed back its input unchanged
    let mut jpg: Vec<u8> = Vec::new();
    let img = image::GrayImage::from_pixel(8, 8, image::Luma([128u8]));
    let mut enc = image::codecs::jpeg::JpegEncoder::new(&mut jpg);
    enc.encode(img.as_raw(), 8, 8, image::ExtendedColorType::L8)
        .expect("encoding failed");
    assert!(jpg.len() != 64);

    let mut state = CaptureState::new(10, 0);
    let cmds = state.process_capture(Some(&jpg), 100).expect("fresh window");
    assert_eq!(cmds.len(), 0);
    let f = state.frame3.as_ref().expect("frame should be held");
    assert_eq!((f.width, f.height), (8, 8));
    assert_eq!(f.pixels.len(), 64);
}

#[test]
fn test_fps_recomputed_after_one_second() {
    let mut state = CaptureState::new(10, 0);
    let mut now: u64 = 0;
    assert_eq!(state.fps, 25);
    for _ in 0..10 {
        now += 100;
        state.process_decoded(&[], Ok(flat(7)), now);
    }
    // the tenth frame lands at 1000 ms: the estimate becomes 10
    assert_eq!(state.fps, 10);
    assert_eq!(state.framerate_counter, 0);
    assert_eq!(state.framerate_time, 1000);
}

/// End-to-end scenario: a static prefix yields no commands, a moving
/// block opens a recording, the recording stays open through the
/// cooldown, and one end frame closes it, stepping the video counter.
#[test]
fn test_recording_lifecycle() {
    let cooldown_secs: u64 = 10;
    let mut state = CaptureState::new(cooldown_secs, 0);
    let mut now: u64 = 0;
    let raw: Vec<u8> = vec![0xAB; 16];

    // 50 static frames at 10 fps: no commands at all
    for _ in 0..50 {
        now += 100;
        let cmds = state.process_decoded(&raw, Ok(flat(10)), now);
        assert_eq!(cmds.len(), 0);
    }
    assert_eq!(state.videocounter, 0);
    assert_eq!(state.framecounter, 0);

    // 20 frames with a block jumping between 10 and 210: movement is
    // detected and a recording opens
    let mut emitted_during_motion = 0;
    for k in 0..20 {
        now += 100;
        let frame = if k % 2 == 0 { with_block(10, 210) } else { flat(10) };
        let cmds = state.process_decoded(&raw, Ok(frame), now);
        for c in &cmds {
            match c {
                FrameCommand::SingleFrame(f) => {
                    assert_eq!(f.video_num, 0);
                    assert!(!f.end);
                    assert_eq!(f.frame_bytes, raw);
                    emitted_during_motion += 1;
                }
                _ => panic!("unexpected command"),
            }
        }
    }
    assert!(emitted_during_motion > 0);
    assert!(state.last_movement.is_some());

    // 15 more static frames: still inside the cooldown, frames keep
    // being emitted as part of recording 0
    for _ in 0..15 {
        now += 100;
        let cmds = state.process_decoded(&raw, Ok(flat(10)), now);
        assert_eq!(cmds.len(), 1);
        match &cmds[0] {
            FrameCommand::SingleFrame(f) => {
                assert_eq!(f.video_num, 0);
                assert!(!f.end);
            }
            _ => panic!("unexpected command"),
        }
    }

    // the cooldown lapses: exactly one end frame closes recording 0
    now += cooldown_secs * 1000;
    let cmds = state.process_decoded(&raw, Ok(flat(10)), now);
    assert_eq!(cmds.len(), 1);
    match &cmds[0] {
        FrameCommand::SingleFrame(f) => {
            assert_eq!(f.video_num, 0);
            assert!(f.end);
        }
        _ => panic!("unexpected command"),
    }
    assert_eq!(state.videocounter, 1);
    assert_eq!(state.framecounter, 0);
    assert!(state.last_movement.is_none());

    // and the scene being static again, nothing further is emitted
    for _ in 0..10 {
        now += 100;
        let cmds = state.process_decoded(&raw, Ok(flat(10)), now);
        assert_eq!(cmds.len(), 0);
    }
    assert_eq!(state.videocounter, 1);
}

#[test]
fn test_frame_numbers_count_up_per_recording() {
    let mut state = CaptureState::new(10, 0);
    let mut now: u64 = 0;
    let raw: Vec<u8> = vec![1];

    // a block appearing and vanishing again lights both diff pairs, so
    // the third frame detects movement
    now += 100;
    state.process_decoded(&raw, Ok(flat(10)), now);
    now += 100;
    state.process_decoded(&raw, Ok(with_block(10, 210)), now);
    now += 100;
    state.process_decoded(&raw, Ok(flat(10)), now);
    assert!(state.last_movement.is_some());

    // each further frame of the open recording steps the frame counter
    for expected in 0..5u64 {
        assert_eq!(state.framecounter, expected);
        now += 100;
        state.process_decoded(&raw, Ok(flat(10)), now);
    }
    assert_eq!(state.framecounter, 5);
    assert_eq!(state.videocounter, 0);
}

#[test]
fn test_gen_filename() {
    assert_eq!(gen_filename(&7, &3), "video_frames/3.7.jpg");
    assert_eq!(gen_filename(&0, &0), "video_frames/0.0.jpg");
    assert_eq!(gen_filename(&120, &10), "video_frames/10.120.jpg");
}
