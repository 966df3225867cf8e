use logmeter::classify::{classify, is_screenshot_save, is_webcam_save, LogEvent};

#[test]
fn regex() {
    let save_camera = "[2018-02-07 09:30:17,492][INFO ] Saved an image to C:\\Users\\tcich\\AppData\\Roaming\\CrossoverWorkSmart\\DataCapture\\Data_02_07_18_08_30_00\\webcam_08_30_11.dcw";
    assert!(is_webcam_save(save_camera.as_bytes()));
    assert!(!is_screenshot_save(save_camera.as_bytes()));

    let save_screen = "[2018-02-07 09:30:31,562][INFO ] Saved an image to C:\\Users\\tcich\\AppData\\Roaming\\CrossoverWorkSmart\\DataCapture\\Data_02_07_18_08_30_00\\screenshot_08_30_29.dcs";
    assert!(!is_webcam_save(save_screen.as_bytes()));
    assert!(is_screenshot_save(save_screen.as_bytes()));
}

#[test]
fn classify_fixed_phrases() {
    assert_eq!(
        classify(b"[INFO ] Camera capture started."),
        Some(LogEvent::CameraStart)
    );
    assert_eq!(
        classify(b"[INFO ] Preparing to get Webcamshot."),
        Some(LogEvent::CameraPrepare)
    );
    assert_eq!(
        classify(b"[INFO ] Got picture from the webcam."),
        Some(LogEvent::CameraFinish)
    );
    assert_eq!(
        classify(b"[INFO ] Data capture started."),
        Some(LogEvent::CaptureStart)
    );
    assert_eq!(
        classify(b"[INFO ] Data capture stopped."),
        Some(LogEvent::CaptureStop)
    );
}

#[test]
fn classify_save_lines() {
    assert_eq!(
        classify(b"[INFO ] Saved an image to C:\\Data\\webcam_08_30_11.dcw"),
        Some(LogEvent::WebcamImageSaved)
    );
    assert_eq!(
        classify(b"[INFO ] Saved an image to C:\\Data\\screenshot_08_30_29.dcs"),
        Some(LogEvent::ScreenshotSaved)
    );
}

#[test]
fn classify_is_pure() {
    let line = b"[INFO ] Saved an image to C:\\Data\\webcam_08_30_11.dcw";
    let first = classify(line);
    let second = classify(line);
    assert_eq!(first, second);
    assert_eq!(first, Some(LogEvent::WebcamImageSaved));
}

#[test]
fn classify_unmatched_line_yields_no_event() {
    assert_eq!(classify(b"[INFO ] Heartbeat."), None);
    assert_eq!(classify(b""), None);
    assert_eq!(classify(b"Saved an image to nowhere in particular"), None);
}

#[test]
fn save_marker_must_follow_prefix() {
    // The marker before the announcement does not count.
    assert_eq!(classify(b"webcam_ then Saved an image to nothing"), None);
    // A webcam marker after the prefix wins over a later screenshot marker.
    assert_eq!(
        classify(b"Saved an image to d\\webcam_screenshot_1.dcw"),
        Some(LogEvent::WebcamImageSaved)
    );
}

#[test]
fn first_match_wins_over_save_patterns() {
    // A line carrying a fixed phrase and a save announcement classifies as
    // the fixed phrase: matching is ordered.
    assert_eq!(
        classify(b"Camera capture started. Saved an image to d\\webcam_1.dcw"),
        Some(LogEvent::CameraStart)
    );
}
