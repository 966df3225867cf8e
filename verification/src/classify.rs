//! Line classification.
//!
//! Maps a line of log text to at most one semantic event. Matching is
//! ordered and first-match-wins; the two save events share the literal
//! prefix `"Saved an image to "` and are told apart only by a later
//! filename marker in the path.

use vstd::prelude::*;
use vstd::string::StringSliceAdditionalSpecFns;

verus! {

/// Semantic events a log line can carry.
#[derive(Clone, Copy, Debug, PartialEq, Eq, Structural)]
pub enum LogEvent {
    CaptureStart,
    CaptureStop,
    CameraStart,
    CameraPrepare,
    CameraFinish,
    WebcamImageSaved,
    ScreenshotSaved,
}

/// The pattern occurs in `line` starting at position `i`.
pub open spec fn match_at(line: Seq<u8>, pat: Seq<u8>, i: int) -> bool {
    &&& 0 <= i
    &&& i + pat.len() <= line.len()
    &&& forall|j: int| 0 <= j < pat.len() ==> line[i + j] == pat[j]
}

/// The pattern occurs somewhere in `line`.
pub open spec fn contains_pattern(line: Seq<u8>, pat: Seq<u8>) -> bool {
    exists|i: int| match_at(line, pat, i)
}

pub open spec fn camera_start_pattern() -> Seq<u8> {
    "Camera capture started.".spec_bytes()
}

pub open spec fn camera_prepare_pattern() -> Seq<u8> {
    "Preparing to get Webcamshot.".spec_bytes()
}

pub open spec fn camera_finish_pattern() -> Seq<u8> {
    "Got picture from the webcam.".spec_bytes()
}

pub open spec fn capture_start_pattern() -> Seq<u8> {
    "Data capture started.".spec_bytes()
}

pub open spec fn capture_stop_pattern() -> Seq<u8> {
    "Data capture stopped.".spec_bytes()
}

pub open spec fn save_prefix() -> Seq<u8> {
    "Saved an image to ".spec_bytes()
}

pub open spec fn webcam_mark() -> Seq<u8> {
    "webcam_".spec_bytes()
}

pub open spec fn screenshot_mark() -> Seq<u8> {
    "screenshot_".spec_bytes()
}

/// The line announces a saved image whose path carries the given filename
/// marker somewhere after the announcement: the save prefix occurs at some
/// position and the marker occurs at or after the end of that prefix.
pub open spec fn is_save_match(line: Seq<u8>, mark: Seq<u8>) -> bool {
    exists|i: int, j: int|
        match_at(line, save_prefix(), i) && i + save_prefix().len() <= j && match_at(line, mark, j)
}

/// The classification of a line: the first pattern to match wins, and a line
/// matching no pattern carries no event.
pub open spec fn classify_spec(line: Seq<u8>) -> Option<LogEvent> {
    if contains_pattern(line, camera_start_pattern()) {
        Some(LogEvent::CameraStart)
    } else if contains_pattern(line, camera_prepare_pattern()) {
        Some(LogEvent::CameraPrepare)
    } else if contains_pattern(line, camera_finish_pattern()) {
        Some(LogEvent::CameraFinish)
    } else if contains_pattern(line, capture_start_pattern()) {
        Some(LogEvent::CaptureStart)
    } else if contains_pattern(line, capture_stop_pattern()) {
        Some(LogEvent::CaptureStop)
    } else if is_save_match(line, webcam_mark()) {
        Some(LogEvent::WebcamImageSaved)
    } else if is_save_match(line, screenshot_mark()) {
        Some(LogEvent::ScreenshotSaved)
    } else {
        None
    }
}

/// Whether `pat` occurs in `line` starting exactly at `i`.
fn matches_at(line: &[u8], pat: &[u8], i: usize) -> (r: bool)
    requires
        i + pat@.len() <= line@.len(),
    ensures
        r == match_at(line@, pat@, i as int),
{
    let n: usize = line.len();
    let mut j: usize = 0;
    while j < pat.len()
        invariant
            i + pat@.len() <= line@.len(),
            n == line@.len(),
            0 <= j <= pat@.len(),
            forall|k: int| 0 <= k < j ==> line@[i + k] == pat@[k],
        decreases pat@.len() - j,
    {
        if line[i + j] != pat[j] {
            return false;
        }
        j = j + 1;
    }
    true
}

/// Position of the first occurrence of `pat` in `line` at or after `from`,
/// if any.
fn find_from(line: &[u8], pat: &[u8], from: usize) -> (r: Option<usize>)
    ensures
        match r {
            Some(k) => {
                &&& from <= k
                &&& match_at(line@, pat@, k as int)
                &&& forall|m: int| from <= m < k ==> !match_at(line@, pat@, m)
            },
            None => forall|m: int| from <= m ==> !match_at(line@, pat@, m),
        },
{
    if pat.len() > line.len() {
        return None;
    }
    let last: usize = line.len() - pat.len();
    if from > last {
        assert(forall|m: int| from <= m ==> !match_at(line@, pat@, m));
        return None;
    }
    let mut k: usize = from;
    loop
        invariant
            from <= k <= last,
            pat@.len() <= line@.len(),
            last == line@.len() - pat@.len(),
            forall|m: int| from <= m < k ==> !match_at(line@, pat@, m),
        ensures
            forall|m: int| from <= m <= last ==> !match_at(line@, pat@, m),
        decreases last - k,
    {
        if matches_at(line, pat, k) {
            return Some(k);
        }
        if k == last {
            break;
        }
        k = k + 1;
    }
    assert(forall|m: int| from <= m ==> !match_at(line@, pat@, m));
    None
}

/// Whether `pat` occurs anywhere in `line`.
fn contains_sub(line: &[u8], pat: &[u8]) -> (r: bool)
    ensures
        r == contains_pattern(line@, pat@),
{
    match find_from(line, pat, 0) {
        Some(k) => {
            assert(contains_pattern(line@, pat@)) by {
                assert(match_at(line@, pat@, k as int));
            }
            true
        },
        None => {
            assert(!contains_pattern(line@, pat@)) by {
                assert(forall|m: int| match_at(line@, pat@, m) ==> 0 <= m);
            }
            false
        },
    }
}

/// Whether the line announces a saved image whose path carries `mark` after
/// the announcement prefix.
fn save_match(line: &[u8], mark: &[u8]) -> (r: bool)
    ensures
        r == is_save_match(line@, mark@),
{
    let prefix: &[u8] = "Saved an image to ".as_bytes();
    assert(prefix@ == save_prefix());
    match find_from(line, prefix, 0) {
        Some(i) => {
            let n: usize = line.len();
            assert(i + prefix@.len() <= n);
            let after: usize = i + prefix.len();
            match find_from(line, mark, after) {
                Some(j) => {
                    assert(is_save_match(line@, mark@)) by {
                        assert(match_at(line@, save_prefix(), i as int) && i + save_prefix().len()
                            <= j && match_at(line@, mark@, j as int));
                    }
                    true
                },
                None => {
                    assert(!is_save_match(line@, mark@)) by {
                        assert forall|p: int, q: int|
                            match_at(line@, save_prefix(), p) && p + save_prefix().len() <= q
                                && match_at(line@, mark@, q) implies false by {
                            assert(i <= p);
                            assert(after <= q);
                            assert(!match_at(line@, mark@, q));
                        }
                    }
                    false
                },
            }
        },
        None => {
            assert(!is_save_match(line@, mark@)) by {
                assert forall|p: int, q: int|
                    match_at(line@, save_prefix(), p) && p + save_prefix().len() <= q && match_at(
                        line@,
                        mark@,
                        q,
                    ) implies false by {
                    assert(!match_at(line@, save_prefix(), p));
                }
            }
            false
        },
    }
}

/// Whether the line announces a saved webcam image.
pub fn is_webcam_save(line: &[u8]) -> (r: bool)
    ensures
        r == is_save_match(line@, webcam_mark()),
{
    let mark: &[u8] = "webcam_".as_bytes();
    assert(mark@ == webcam_mark());
    save_match(line, mark)
}

/// Whether the line announces a saved screenshot.
pub fn is_screenshot_save(line: &[u8]) -> (r: bool)
    ensures
        r == is_save_match(line@, screenshot_mark()),
{
    let mark: &[u8] = "screenshot_".as_bytes();
    assert(mark@ == screenshot_mark());
    save_match(line, mark)
}

/// Classify one line of log text: the first matching pattern wins; a line
/// matching none yields no event. Pure: the result depends on the bytes of
/// the line alone.
pub fn classify(line: &[u8]) -> (r: Option<LogEvent>)
    ensures
        r == classify_spec(line@),
{
    let camera_start: &[u8] = "Camera capture started.".as_bytes();
    let camera_prepare: &[u8] = "Preparing to get Webcamshot.".as_bytes();
    let camera_finish: &[u8] = "Got picture from the webcam.".as_bytes();
    let capture_start: &[u8] = "Data capture started.".as_bytes();
    let capture_stop: &[u8] = "Data capture stopped.".as_bytes();
    if contains_sub(line, camera_start) {
        Some(LogEvent::CameraStart)
    } else if contains_sub(line, camera_prepare) {
        Some(LogEvent::CameraPrepare)
    } else if contains_sub(line, camera_finish) {
        Some(LogEvent::CameraFinish)
    } else if contains_sub(line, capture_start) {
        Some(LogEvent::CaptureStart)
    } else if contains_sub(line, capture_stop) {
        Some(LogEvent::CaptureStop)
    } else if is_webcam_save(line) {
        Some(LogEvent::WebcamImageSaved)
    } else if is_screenshot_save(line) {
        Some(LogEvent::ScreenshotSaved)
    } else {
        None
    }
}

/// The two save events never confuse one another: a line carrying the webcam
/// marker after the save prefix is never classified as a saved screenshot,
/// and a line carrying the screenshot marker but not the webcam marker is
/// never classified as a saved webcam image.
pub proof fn lemma_save_events_disjoint(line: Seq<u8>)
    ensures
        is_save_match(line, webcam_mark()) ==> classify_spec(line) != Some(
            LogEvent::ScreenshotSaved,
        ),
        is_save_match(line, screenshot_mark()) && !is_save_match(line, webcam_mark())
            ==> classify_spec(line) != Some(LogEvent::WebcamImageSaved),
{
}

/// A line carrying the webcam marker after the save prefix, and none of the
/// five fixed phrases, is classified as a saved webcam image; with the
/// screenshot marker instead (and no webcam marker) it is classified as a
/// saved screenshot.
pub proof fn lemma_save_events_classified(line: Seq<u8>)
    requires
        !contains_pattern(line, camera_start_pattern()),
        !contains_pattern(line, camera_prepare_pattern()),
        !contains_pattern(line, camera_finish_pattern()),
        !contains_pattern(line, capture_start_pattern()),
        !contains_pattern(line, capture_stop_pattern()),
    ensures
        is_save_match(line, webcam_mark()) ==> classify_spec(line) == Some(
            LogEvent::WebcamImageSaved,
        ),
        is_save_match(line, screenshot_mark()) && !is_save_match(line, webcam_mark())
            ==> classify_spec(line) == Some(LogEvent::ScreenshotSaved),
{
}

} // verus!
