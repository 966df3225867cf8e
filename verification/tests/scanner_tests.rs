use logmeter::classify::LogEvent;
use logmeter::scanner::{FileScanner, TailError};

#[test]
fn create_starts_at_current_length() {
    let scanner = FileScanner::create(42);
    assert_eq!(scanner.last_byte_read, 42);
    assert!(scanner.carry.is_empty());
}

#[test]
fn prepare_read_counts_appended_bytes() {
    let mut scanner = FileScanner::create(10);
    assert_eq!(scanner.prepare_read(25), Ok(15));
    assert_eq!(scanner.last_byte_read, 10);
    assert_eq!(scanner.prepare_read(10), Ok(0));
}

#[test]
fn prepare_read_rejects_shrunk_file() {
    let mut scanner = FileScanner::create(10);
    assert_eq!(scanner.prepare_read(7), Err(TailError::TailInvariantViolation));
    // The scanner resets to the new length so the next wake-up succeeds.
    assert_eq!(scanner.last_byte_read, 7);
    assert!(scanner.carry.is_empty());
    assert_eq!(scanner.prepare_read(9), Ok(2));
}

#[test]
fn handle_event_classifies_complete_lines() {
    let mut scanner = FileScanner::create(0);
    let delta = b"x Data capture started.\ny Got picture from the webcam.\n".to_vec();
    let len = delta.len() as u64;
    let events = scanner.handle_event(delta, len);
    assert_eq!(events.len(), 2);
    assert_eq!(events[0].event, LogEvent::CaptureStart);
    assert_eq!(events[0].line, b"x Data capture started.".to_vec());
    assert_eq!(events[1].event, LogEvent::CameraFinish);
    assert_eq!(events[1].line, b"y Got picture from the webcam.".to_vec());
    assert_eq!(scanner.last_byte_read, len);
    assert!(scanner.carry.is_empty());
}

#[test]
fn handle_event_drops_unmatched_lines() {
    let mut scanner = FileScanner::create(0);
    let delta = b"noise\nData capture stopped.\nmore noise\n".to_vec();
    let len = delta.len() as u64;
    let events = scanner.handle_event(delta, len);
    assert_eq!(events.len(), 1);
    assert_eq!(events[0].event, LogEvent::CaptureStop);
}

#[test]
fn partial_trailing_line_is_carried_not_classified() {
    let mut scanner = FileScanner::create(0);
    // The delta ends in the middle of a matched phrase.
    let first = b"noise\nGot picture fr".to_vec();
    let first_len = first.len() as u64;
    let events = scanner.handle_event(first, first_len);
    // No event for the fragment, and its bytes are carried forward.
    assert_eq!(events.len(), 0);
    assert_eq!(scanner.carry, b"Got picture fr".to_vec());

    // The next delta completes the line: the phrase split across the two
    // deltas is still matched.
    let second = b"om the webcam.\n".to_vec();
    let second_len = first_len + second.len() as u64;
    let events = scanner.handle_event(second, second_len);
    assert_eq!(events.len(), 1);
    assert_eq!(events[0].event, LogEvent::CameraFinish);
    assert_eq!(events[0].line, b"Got picture from the webcam.".to_vec());
    assert!(scanner.carry.is_empty());
}

#[test]
fn repeated_reads_cover_appends_exactly_once() {
    // The file grows in three appends; each wake-up reads the planned delta.
    // The bytes read, concatenated, are exactly the appended bytes.
    let mut file: Vec<u8> = b"preexisting content\n".to_vec();
    let mut scanner = FileScanner::create(file.len() as u64);

    let appends: [&[u8]; 3] = [
        b"Data capture started.\nGot pic",
        b"ture from the webcam.\n",
        b"Data capture stopped.\n",
    ];
    let appended: Vec<u8> = appends.concat();

    let mut read_bytes: Vec<u8> = Vec::new();
    let mut all_events: Vec<LogEvent> = Vec::new();
    for a in appends.iter() {
        file.extend_from_slice(a);
        let len = file.len() as u64;
        let delta_len = scanner.prepare_read(len).unwrap() as usize;
        let delta = file[file.len() - delta_len..].to_vec();
        read_bytes.extend_from_slice(&delta);
        for c in scanner.handle_event(delta, len) {
            all_events.push(c.event);
        }
    }

    assert_eq!(read_bytes, appended);
    assert_eq!(
        all_events,
        vec![
            LogEvent::CaptureStart,
            LogEvent::CameraFinish,
            LogEvent::CaptureStop
        ]
    );
}
