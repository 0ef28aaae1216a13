use pixel_perfect::{decimal, session_dir, CaptureError, ScreenCapture};

#[test]
fn decimal_digits() {
    assert_eq!(decimal(0), "0");
    assert_eq!(decimal(7), "7");
    assert_eq!(decimal(10), "10");
    assert_eq!(decimal(1_234_567_890), "1234567890");
    assert_eq!(decimal(u64::MAX), u64::MAX.to_string());
}

#[test]
fn session_directory_is_named_by_start_time() {
    assert_eq!(session_dir(1_700_000_000_123), "capture/1700000000123/frames");
}

#[test]
fn three_frames_numbered_from_zero() {
    let mut c = ScreenCapture::begin_capture(1_700_000_000_123, true).unwrap();
    let mut paths = Vec::new();
    for i in 0..3u64 {
        let p = c.frame_path().unwrap();
        assert_eq!(c.save_frame(true), Ok(i));
        paths.push(p);
    }
    assert_eq!(
        paths,
        vec![
            "capture/1700000000123/frames/0.png",
            "capture/1700000000123/frames/1.png",
            "capture/1700000000123/frames/2.png",
        ]
    );
    let summary = c.end_capture();
    assert_eq!(summary.frames, 3);
    assert_eq!(summary.dir, "capture/1700000000123/frames");
    assert!(!c.is_active());
}

#[test]
fn failed_directory_creation_starts_nothing() {
    assert_eq!(ScreenCapture::begin_capture(5, false).unwrap_err(), CaptureError::Init);
}

#[test]
fn write_failure_keeps_frame_index() {
    let mut c = ScreenCapture::begin_capture(42, true).unwrap();
    assert_eq!(c.save_frame(true), Ok(0));
    assert_eq!(c.save_frame(false), Err(CaptureError::Write));
    assert_eq!(c.frame_number(), 1);
    assert_eq!(c.frame_path().unwrap(), "capture/42/frames/1.png");
    assert_eq!(c.save_frame(true), Ok(1));
    assert_eq!(c.frame_number(), 2);
    assert!(c.is_active());
}

#[test]
fn inactive_session_refuses_frames() {
    let mut c = ScreenCapture::begin_capture(42, true).unwrap();
    c.end_capture();
    assert_eq!(c.frame_path(), Err(CaptureError::InvalidTransition));
    assert_eq!(c.save_frame(true), Err(CaptureError::InvalidTransition));
    assert_eq!(c.frame_number(), 0);
}

#[test]
fn ending_twice_changes_nothing() {
    let mut c = ScreenCapture::begin_capture(9, true).unwrap();
    c.save_frame(true).unwrap();
    let first = c.end_capture();
    let second = c.end_capture();
    assert_eq!((first.frames, first.dir.as_str()), (1, "capture/9/frames"));
    assert_eq!((second.frames, second.dir.as_str()), (1, "capture/9/frames"));
    assert_eq!(c.dir(), "capture/9/frames");
}
