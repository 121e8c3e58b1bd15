use game_of_life::recorder::{GifRecorder, RecorderError};

#[test]
fn recorder_starts_idle_with_default_delay() {
    let rec = GifRecorder::new();
    assert!(!rec.is_recording());
    assert_eq!(rec.get_frame_delay(), 100);
}

#[test]
fn stop_without_recording_is_invalid_state() {
    let mut rec = GifRecorder::new();
    assert_eq!(rec.stop_recording(), Err(RecorderError::InvalidRecordingState));
}

#[test]
fn capture_without_recording_is_invalid_state() {
    let mut rec = GifRecorder::new();
    assert_eq!(
        rec.capture_frame(&vec![0u8; 12]),
        Err(RecorderError::InvalidRecordingState)
    );
}

#[test]
fn start_twice_is_invalid_state() {
    let mut rec = GifRecorder::new();
    assert!(rec.start_recording(2, 2, 50).is_ok());
    assert_eq!(
        rec.start_recording(4, 4, 10),
        Err(RecorderError::InvalidRecordingState)
    );
    // the running session is untouched
    assert!(rec.is_recording());
    assert_eq!(rec.get_frame_delay(), 50);
}

#[test]
fn stop_with_zero_frames_is_empty_capture() {
    let mut rec = GifRecorder::new();
    assert!(rec.start_recording(2, 2, 33).is_ok());
    assert_eq!(rec.stop_recording(), Err(RecorderError::EmptyCapture));
    // the session is still recording and can go on
    assert!(rec.is_recording());
    assert!(rec.capture_frame(&vec![0u8; 12]).is_ok());
    assert!(rec.stop_recording().is_ok());
}

#[test]
fn short_buffer_is_dimension_mismatch() {
    let mut rec = GifRecorder::new();
    assert!(rec.start_recording(2, 2, 33).is_ok());
    // one byte short of width * height * 3
    assert_eq!(
        rec.capture_frame(&vec![0u8; 2 * 2 * 3 - 1]),
        Err(RecorderError::DimensionMismatch)
    );
    assert_eq!(
        rec.capture_frame(&vec![0u8; 2 * 2 * 3 + 1]),
        Err(RecorderError::DimensionMismatch)
    );
}

#[test]
fn three_frames_at_33ms_encode_with_delay_3() {
    let mut rec = GifRecorder::new();
    assert!(rec.start_recording(2, 2, 33).is_ok());
    assert!(rec.is_recording());
    assert_eq!(rec.get_frame_delay(), 33);

    let frames: [Vec<u8>; 3] = [
        vec![255u8; 12],
        vec![0u8; 12],
        vec![
            255, 0, 0, 0, 255, 0, 0, 0, 255, 255, 255, 255,
        ],
    ];
    for frame in &frames {
        assert!(rec.capture_frame(frame).is_ok());
    }
    let bytes = rec.stop_recording().expect("encoding should succeed");
    assert!(!rec.is_recording());
    // the delay survives the session
    assert_eq!(rec.get_frame_delay(), 33);

    let mut decoder = gif::DecodeOptions::new()
        .read_info(&bytes[..])
        .expect("the stream should decode");
    assert_eq!(decoder.width(), 2);
    assert_eq!(decoder.height(), 2);
    assert!(matches!(decoder.repeat(), gif::Repeat::Infinite));
    let mut count = 0;
    while let Some(frame) = decoder.read_next_frame().expect("frame should decode") {
        // (33 + 5) / 10 = 3 in the format's 10 ms units
        assert_eq!(frame.delay, 3);
        count += 1;
    }
    assert_eq!(count, 3);
}

#[test]
fn stopping_clears_frames_for_the_next_session() {
    let mut rec = GifRecorder::new();
    assert!(rec.start_recording(1, 1, 7).is_ok());
    assert!(rec.capture_frame(&vec![9, 9, 9]).is_ok());
    assert!(rec.stop_recording().is_ok());
    // a new session starts from zero captured frames
    assert!(rec.start_recording(1, 1, 7).is_ok());
    assert_eq!(rec.stop_recording(), Err(RecorderError::EmptyCapture));
}

#[test]
fn delay_conversion_rounds_half_up() {
    for (ms, expected) in [(0u16, 0u16), (4, 0), (5, 1), (33, 3), (35, 4), (100, 10), (u16::MAX, 6554)] {
        let mut rec = GifRecorder::new();
        assert!(rec.start_recording(1, 1, ms).is_ok());
        assert!(rec.capture_frame(&vec![1, 2, 3]).is_ok());
        let bytes = rec.stop_recording().expect("encoding should succeed");
        let mut decoder = gif::DecodeOptions::new()
            .read_info(&bytes[..])
            .expect("the stream should decode");
        let frame = decoder
            .read_next_frame()
            .expect("frame should decode")
            .expect("one frame was written");
        assert_eq!(frame.delay, expected);
    }
}
